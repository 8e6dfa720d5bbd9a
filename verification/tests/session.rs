use agent_core::event::Cost;
use agent_core::message::Parameters;
use agent_core::message::Registry;
use agent_core::message::ToolDef;
use agent_core::message::ToolDefFunction;
use agent_core::outside::Timestamp;
use agent_core::session::AgentSession;
use agent_core::session::ClientInfo;
use agent_core::session::Session;
use agent_core::session::SubagentDef;
use agent_core::session::SubagentEntry;

fn dummy_session() -> Session {
    let time = Timestamp { secs: 1_700_000_000, nanos: 5 };
    Session {
        id: "s1".to_string(),
        name: String::new(),
        hash: "h".to_string(),
        named: false,
        current_turn: String::new(),
        created_at: time,
        updated_at: time,
        turn_count: 0,
        prompt_tokens: 0,
        completion_tokens: 0,
        total_tokens: 0,
        context_tokens: 0,
        cost: Cost::zero(),
    }
}

fn tool(name: &str) -> ToolDef {
    ToolDef {
        def_type: "function".to_string(),
        function: ToolDefFunction {
            name: name.to_string(),
            description: String::new(),
            parameters: Parameters::Json("{}".to_string()),
        },
    }
}

fn registry(names: &[&str]) -> Registry {
    Registry { defs: names.iter().map(|n| tool(n)).collect() }
}

fn dummy_agent_with(names: &[&str]) -> AgentSession {
    AgentSession::new(
        dummy_session(),
        ClientInfo { context_window: 8000 },
        registry(names),
        "sys".to_string(),
        "/tmp".to_string(),
    )
}

fn dummy_agent() -> AgentSession {
    dummy_agent_with(&[])
}

fn subagent(id: &str, description: &str, tools: &[&str]) -> SubagentDef {
    SubagentDef {
        id: id.to_string(),
        description: description.to_string(),
        client: ClientInfo { context_window: 4000 },
        registry: registry(tools),
        system_prompt: "s".to_string(),
        model_name: "m".to_string(),
    }
}

fn entry(id: &str, description: &str, tools: &[&str]) -> SubagentEntry {
    SubagentEntry { role: id.to_string(), def: subagent(id, description, tools) }
}

fn names(defs: &[ToolDef]) -> Vec<String> {
    defs.iter().map(|d| d.function.name.clone()).collect()
}

#[test]
fn test_reload_from_syncs_session_and_accumulators() {
    let mut agent = dummy_agent();

    let mut fresh = agent.sess().clone();
    fresh.current_turn = "t1".to_string();
    fresh.prompt_tokens = 120;
    fresh.completion_tokens = 80;
    fresh.context_tokens = 200;
    fresh.cost = Cost { bits: 1.5f64.to_bits() };

    agent.reload_from(fresh);

    let sess = agent.sess();
    assert_eq!(sess.current_turn, "t1");
    assert_eq!(sess.prompt_tokens, 120);
    assert_eq!(sess.completion_tokens, 80);
    assert_eq!(sess.context_tokens, 200);
    assert_eq!(f64::from_bits(sess.cost.bits), 1.5);
    assert_eq!(agent.context_tokens(), 200);
}

#[test]
fn test_set_subagents_replaces_delegate_def() {
    let mut agent = dummy_agent();
    agent.set_subagents(vec![entry("a", "a", &[])]);
    agent.set_subagents(vec![entry("a", "a", &[]), entry("b", "b", &[])]);
    let defs = agent.tool_defs();
    let delegates: Vec<_> = defs.iter().filter(|d| d.function.name == "delegate").collect();
    assert_eq!(delegates.len(), 1, "delegate tool should not be duplicated");
}

#[test]
fn test_delegate_def_lists_role_tools() {
    let mut agent = dummy_agent();
    agent.set_subagents(vec![entry("explorer", "Map code. Read-only.", &["bash", "read_file"])]);
    let delegate = agent
        .tool_defs()
        .into_iter()
        .find(|d| d.function.name == "delegate")
        .expect("delegate tool");
    let desc = &delegate.function.description;
    assert!(desc.contains("explorer"), "desc={desc}");
    assert!(desc.contains("Map code. Read-only."), "desc={desc}");
    assert!(desc.contains("[bash, read_file]"), "desc={desc}");
    assert!(!desc.contains("OUTPUT RULES"), "desc={desc}");
}

#[test]
fn a_session_begins_with_its_surroundings() {
    let agent = AgentSession::new_on(
        "2024-02-29",
        dummy_session(),
        ClientInfo { context_window: 8000 },
        registry(&["bash"]),
        "sys".to_string(),
        "/tmp".to_string(),
    );
    assert_eq!(agent.system_prompt(), "CWD: /tmp\nDate: 2024-02-29\n\nsys");
    assert_eq!(agent.context_window(), 8000);
    assert_eq!(agent.context_tokens(), 0);
    assert_eq!(names(&agent.tool_defs()), ["bash"]);
    assert_eq!(agent.api_session_id, "s1");
    assert!(!agent.subagents_state.is_subagent);
    assert!(agent.working_messages.is_empty());
}

#[test]
fn a_session_that_begins_today_knows_the_date() {
    let agent = dummy_agent();
    let msg = agent.system_prompt();
    let date = msg.strip_prefix("CWD: /tmp\nDate: ").unwrap().strip_suffix("\n\nsys").unwrap();
    assert_eq!(date.len(), 10);
    let parts: Vec<&str> = date.split('-').collect();
    assert_eq!(parts.len(), 3);
    assert!(parts[0].parse::<u32>().unwrap() >= 2024);
    assert!((1..=12).contains(&parts[1].parse::<u32>().unwrap()));
    assert!((1..=31).contains(&parts[2].parse::<u32>().unwrap()));
}

#[test]
fn a_subagent_begins_with_its_own_prompt() {
    let time = Timestamp { secs: 7, nanos: 8 };
    let sub = AgentSession::new_subagent_on(
        "2024-02-29",
        time,
        time,
        "s1".to_string(),
        &subagent("coder", "writes code", &["bash"]),
        "/tmp".to_string(),
        "call1",
    );
    assert_eq!(
        sub.system_prompt(),
        "CWD: /tmp\nDate: 2024-02-29\n\ns\n\nYour final message is the parent's full tool result."
    );
    assert_eq!(sub.api_session_id, "s1:sub:coder:call1");
    assert_eq!(sub.context_window(), 4000);
    assert!(sub.subagents_state.is_subagent);
    assert_eq!(sub.sess.id, "s1");
    assert_eq!(sub.sess.created_at, time);
    assert_eq!(sub.sess.hash, "");
    assert_eq!(names(&sub.tool_defs()), ["bash"]);
}

#[test]
fn a_subagent_that_begins_now_knows_the_time() {
    let sub = AgentSession::new_subagent(
        "s1".to_string(),
        &subagent("coder", "", &[]),
        "/tmp".to_string(),
        "call1",
    );
    assert!(sub.sess.created_at.secs > 1_600_000_000);
    assert!(sub.sess.created_at.nanos < 1_000_000_000);
    assert!(sub.sess.updated_at.secs >= sub.sess.created_at.secs);
    assert!(sub.system_prompt().starts_with("CWD: /tmp\nDate: "));
}

#[test]
fn the_delegate_tool_is_described_in_full() {
    let mut agent = dummy_agent_with(&["bash"]);
    agent.set_subagents(vec![
        entry("b", "second", &[]),
        entry("a", "", &["x", "y", "z"]),
        entry("c", "", &[]),
    ]);
    let defs = agent.tool_defs();
    assert_eq!(names(&defs), ["bash", "delegate"]);
    let def = &defs[1];
    assert_eq!(def.def_type, "function");
    assert_eq!(
        def.function.description,
        "Hand off one scoped job to a subagent. Isolated history; no nested delegate. Only the final message returns. Fan out independent calls. Not for one trivial tool call.\n\nRoles:\n- a [x, y, z]\n- b — second\n- c"
    );
    match &def.function.parameters {
        Parameters::Object { properties, required } => {
            assert_eq!(required, &["subagent", "task"]);
            assert_eq!(properties.len(), 3);
            assert_eq!(properties[0].name, "subagent");
            assert_eq!(properties[0].kind, "string");
            assert_eq!(properties[0].choices.as_deref().unwrap(), ["a", "b", "c"]);
            assert_eq!(properties[0].description, "Role id");
            assert_eq!(properties[1].name, "task");
            assert!(properties[1].choices.is_none());
            assert_eq!(properties[2].name, "context");
        }
        other => panic!("{other:?}"),
    }
}

#[test]
fn the_order_of_the_subagents_does_not_matter() {
    let mut first = dummy_agent();
    let mut second = dummy_agent();
    first.set_subagents(vec![entry("b", "x", &[]), entry("a", "y", &[]), entry("aa", "z", &[])]);
    second.set_subagents(vec![entry("aa", "z", &[]), entry("b", "x", &[]), entry("a", "y", &[])]);
    assert_eq!(
        first.tool_defs()[0].function.description,
        second.tool_defs()[0].function.description
    );
}

#[test]
fn no_subagents_leave_no_delegate_tool() {
    let mut agent = dummy_agent_with(&["bash"]);
    agent.set_subagents(vec![entry("a", "a", &[])]);
    assert_eq!(names(&agent.tool_defs()), ["bash", "delegate"]);
    agent.set_subagents(vec![]);
    assert_eq!(names(&agent.tool_defs()), ["bash"]);
    assert!(agent.subagents_state.subagents.is_empty());
}

#[test]
fn a_retry_repeats_the_last_prompt() {
    let mut agent = dummy_agent();
    assert_eq!(agent.retry().err().unwrap(), "no prompt to retry");
    let (session, text) = agent.prompt_with_handle("do it");
    assert_eq!(text, "do it");
    assert_eq!(session.last_prompt, "do it");
    agent.prompt_with_handle("do that");
    let (session, text) = agent.retry().unwrap();
    assert_eq!(text, "do that");
    assert_eq!(session.last_prompt, "do that");
    agent.prompt_with_handle("");
    assert!(agent.retry().is_err());
}

#[test]
fn a_client_can_be_changed() {
    let mut agent = dummy_agent();
    agent.set_client(ClientInfo { context_window: 1 });
    assert_eq!(agent.context_window(), 1);
}
