use agent_core::event::Cost;
use agent_core::event::Event;
use agent_core::event::EventKind;
use agent_core::message::Message;
use agent_core::message::Parameters;
use agent_core::message::ReasoningDetail;
use agent_core::message::Registry;
use agent_core::message::Role;
use agent_core::message::StreamToolCall;
use agent_core::message::ToolDef;
use agent_core::message::ToolDefFunction;
use agent_core::outside::Timestamp;
use agent_core::round::tool_done;
use agent_core::round::CostTotals;
use agent_core::round::DelegateData;
use agent_core::round::PendingTool;
use agent_core::round::RegistryTask;
use agent_core::round::TaskDone;
use agent_core::round::ToolOutcome;
use agent_core::round::ToolRoute;
use agent_core::session::AgentSession;
use agent_core::session::ClientInfo;
use agent_core::session::Session;
use agent_core::session::SubagentDef;
use agent_core::session::SubagentEntry;

fn call(id: &str, name: &str, arguments: &str) -> StreamToolCall {
    StreamToolCall { id: id.into(), name: name.into(), arguments: arguments.into() }
}

fn registry(names: &[&str]) -> Registry {
    let defs = names
        .iter()
        .map(|name| ToolDef {
            def_type: "function".into(),
            function: ToolDefFunction {
                name: name.to_string(),
                description: String::new(),
                parameters: Parameters::Json("{}".into()),
            },
        })
        .collect();
    Registry { defs }
}

fn agent(names: &[&str]) -> AgentSession {
    let time = Timestamp { secs: 0, nanos: 0 };
    let sess = Session {
        id: "s1".into(),
        name: String::new(),
        hash: String::new(),
        named: false,
        current_turn: String::new(),
        created_at: time,
        updated_at: time,
        turn_count: 0,
        prompt_tokens: 100,
        completion_tokens: 10,
        total_tokens: 110,
        context_tokens: 0,
        cost: Cost { bits: 1.0f64.to_bits() },
    };
    AgentSession::new(sess, ClientInfo { context_window: 8000 }, registry(names), "sys".into(), "/tmp".into())
}

fn with_subagent(names: &[&str]) -> AgentSession {
    let mut agent = agent(names);
    let def = SubagentDef {
        id: "coder".into(),
        description: "coder".into(),
        client: ClientInfo { context_window: 4000 },
        registry: registry(&[]),
        system_prompt: "sub".into(),
        model_name: "mock".into(),
    };
    agent.set_subagents(vec![SubagentEntry { role: "coder".into(), def }]);
    agent
}

fn done(index: usize, result: &str, is_error: bool) -> TaskDone {
    TaskDone { index, result: result.into(), duration: "1s".into(), is_error, delegate_data: None }
}

fn delegated(index: usize, result: &str, prompt: i32, completion: i32, cost: f64) -> TaskDone {
    let data = DelegateData {
        prompt_tokens: prompt,
        completion_tokens: completion,
        cost: Cost { bits: cost.to_bits() },
        msgs: vec![],
        subagent_id: "coder".into(),
        tool_call_id: format!("c{index}"),
    };
    TaskDone { delegate_data: Some(data), ..done(index, result, false) }
}

fn no_cost() -> CostTotals {
    CostTotals { session: Cost::zero(), round: Cost::zero() }
}

fn errors(events: &[Event]) -> Vec<(String, String, String)> {
    events
        .iter()
        .filter_map(|ev| match &ev.kind {
            EventKind::ToolError { id, error, duration, .. } => Some((id.clone(), error.clone(), duration.clone())),
            _ => None,
        })
        .collect()
}

fn calls() -> Vec<StreamToolCall> {
    vec![call("c0", "bash", "{}"), call("c1", "delegate", "{}"), call("c2", "read", "[1]")]
}

#[test]
fn a_round_begins_with_the_start_of_every_call() {
    let agent = with_subagent(&["bash"]);
    let (events, routes, round) = agent.execute_tools(&calls());
    assert_eq!(routes, [ToolRoute::Registry, ToolRoute::Delegate, ToolRoute::Registry]);
    assert_eq!(events.len(), 3);
    match &events[2].kind {
        EventKind::ToolCallStart { id, name, arguments } => {
            assert_eq!((id.as_str(), name.as_str(), arguments.as_str()), ("c2", "read", "[1]"));
        }
        other => panic!("{other:?}"),
    }
    assert_eq!(events[2].subagent, "");
    assert_eq!(round.pending.len(), 3);
    assert_eq!(round.outstanding, [true, true, true]);
    assert!(round.deferred_errors.is_empty());
}

#[test]
fn a_session_without_subagents_does_not_delegate() {
    let (_, routes, _) = agent(&[]).execute_tools(&calls());
    assert_eq!(routes, [ToolRoute::Registry; 3]);
}

#[test]
fn results_stand_with_their_calls() {
    let mut agent = agent(&["bash"]);
    let (_, _, mut round) = agent.execute_tools(&calls());
    agent.task_joined(&mut round, done(2, "two", false), no_cost());
    agent.task_joined(&mut round, done(0, "zero failed", true), no_cost());
    agent.task_joined(&mut round, done(1, "one", false), no_cost());
    let (pending, events) = round.finish();
    let results: Vec<&str> = pending.iter().map(|p| p.result.as_str()).collect();
    assert_eq!(results, ["zero failed", "one", "two"]);
    assert_eq!(pending[1].call.id, "c1");
    assert_eq!(pending[1].duration, "1s");
    assert_eq!(events.len(), 1);
    assert_eq!(errors(&events), [("c0".to_string(), "zero failed".to_string(), "1s".to_string())]);
}

#[test]
fn results_are_the_same_in_every_order() {
    let orders = [[0, 1, 2], [0, 2, 1], [1, 0, 2], [1, 2, 0], [2, 0, 1], [2, 1, 0]];
    for order in orders {
        let mut agent = agent(&["bash"]);
        let (_, _, mut round) = agent.execute_tools(&calls());
        for i in order {
            agent.task_joined(&mut round, done(i, &format!("r{i}"), i == 1), no_cost());
        }
        let (pending, events) = round.finish();
        let results: Vec<&str> = pending.iter().map(|p| p.result.as_str()).collect();
        assert_eq!(results, ["r0", "r1", "r2"]);
        assert_eq!(errors(&events).len(), 1);
    }
}

#[test]
fn a_task_that_never_ends_has_failed() {
    let mut agent = agent(&["bash"]);
    let (_, _, mut round) = agent.execute_tools(&calls());
    agent.task_joined(&mut round, done(1, "bad", true), no_cost());
    let (pending, events) = round.finish();
    let results: Vec<&str> = pending.iter().map(|p| p.result.as_str()).collect();
    assert_eq!(results, ["tool task failed", "bad", "tool task failed"]);
    let reported: Vec<(String, String, String)> = errors(&events);
    assert_eq!(reported.len(), 3);
    assert_eq!(reported[0].0, "c1");
    assert_eq!(reported[1], ("c0".to_string(), "tool task failed".to_string(), String::new()));
    assert_eq!(reported[2].0, "c2");
}

#[test]
fn delegated_work_is_added_to_the_session() {
    let mut agent = with_subagent(&[]);
    let (_, _, mut round) = agent.execute_tools(&calls());
    let first = CostTotals { session: Cost { bits: 1.5f64.to_bits() }, round: Cost { bits: 0.5f64.to_bits() } };
    agent.task_joined(&mut round, delegated(1, "a", 20, 3, 0.5), first);
    agent.task_joined(&mut round, done(0, "b", false), no_cost());
    let second = CostTotals { session: Cost { bits: 1.75f64.to_bits() }, round: Cost { bits: 0.75f64.to_bits() } };
    agent.task_joined(&mut round, delegated(2, "c", -5, 4, 0.25), second);
    assert_eq!(agent.sess.prompt_tokens, 115);
    assert_eq!(agent.sess.completion_tokens, 17);
    assert_eq!(agent.sess.total_tokens, 110);
    assert_eq!(f64::from_bits(agent.sess.cost.bits), 1.75);
    let turns = &agent.subagents_state.subagent_turns;
    assert_eq!(turns.len(), 2);
    assert_eq!((turns[0].subagent.as_str(), turns[0].tool_call_id.as_str()), ("coder", "c1"));
    assert_eq!(turns[1].tool_call_id, "c2");
    let (_, events) = round.finish();
    assert_eq!(events.len(), 1);
    match &events[0].kind {
        EventKind::Usage(usage) => {
            assert_eq!(f64::from_bits(usage.cost.bits), 0.75);
            assert_eq!((usage.prompt_tokens, usage.completion_tokens, usage.total_tokens), (0, 0, 0));
            assert!(usage.prompt_tokens_details.is_none());
        }
        other => panic!("{other:?}"),
    }
}

#[test]
fn delegated_work_that_costs_nothing_is_not_reported() {
    let mut agent = with_subagent(&[]);
    let (_, _, mut round) = agent.execute_tools(&calls()[..1].to_vec());
    agent.task_joined(&mut round, delegated(0, "a", 1, 1, 0.0), no_cost());
    assert!(round.finish().1.is_empty());
}

#[test]
fn a_round_without_calls_is_over() {
    let (events, routes, round) = agent(&[]).execute_tools(&vec![]);
    assert!(events.is_empty() && routes.is_empty());
    let (pending, events) = round.finish();
    assert!(pending.is_empty() && events.is_empty());
}

#[test]
fn an_unknown_tool_is_not_found() {
    match agent(&["bash"]).spawn_registry_task(4, &call("c", "nope", "not json")) {
        RegistryTask::NotFound(done) => {
            assert_eq!(done.index, 4);
            assert_eq!(done.result, "Tool nope not found");
            assert_eq!(done.duration, "");
            assert!(done.is_error && done.delegate_data.is_none());
        }
        _ => panic!("the tool was found"),
    }
}

#[test]
fn a_tool_runs_on_its_arguments() {
    match agent(&["bash"]).spawn_registry_task(0, &call("c", "bash", r#" {"command": ["ls", 1]} "#)) {
        RegistryTask::Run(args) => {
            assert_eq!(args["command"][0], "ls");
            assert_eq!(args["command"][1], 1);
        }
        _ => panic!("the tool does not run"),
    }
}

#[test]
fn arguments_that_are_no_json_are_refused() {
    let tc = call("c", "bash", "{");
    let outcome = match agent(&["bash"]).spawn_registry_task(0, &tc) {
        RegistryTask::Refused(outcome) => outcome,
        _ => panic!("the arguments were accepted"),
    };
    let error = serde_json::from_str::<serde_json::Value>("{").unwrap_err().to_string();
    let (event, done) = tool_done(0, &tc, outcome, "2ms".into());
    assert!(event.is_none());
    assert_eq!(done.result, format!("Tool bash invalid args: {error}"));
    assert_eq!(done.duration, "2ms");
    assert!(done.is_error);
}

#[test]
fn parsed_arguments_decide_what_is_done() {
    let tc = call("c", "bash", "");
    let agent = agent(&["bash"]);
    assert!(matches!(agent.plan_registry_task(0, &tc, Err("bad".into())), RegistryTask::Refused(ToolOutcome::InvalidArgs(e)) if e == "bad"));
    assert!(matches!(agent.plan_registry_task(0, &tc, Ok(serde_json::Value::Bool(true))), RegistryTask::Run(serde_json::Value::Bool(true))));
}

#[test]
fn a_result_is_reported_and_a_failure_is_kept() {
    let tc = call("c", "bash", "{}");
    let (event, done) = tool_done(1, &tc, ToolOutcome::Finished("out".into()), "3s".into());
    match event.unwrap().kind {
        EventKind::ToolResult { id, name, result, duration } => {
            assert_eq!((id.as_str(), name.as_str(), result.as_str(), duration.as_str()), ("c", "bash", "out", "3s"));
        }
        other => panic!("{other:?}"),
    }
    assert_eq!((done.index, done.result.as_str(), done.is_error), (1, "out", false));

    let (event, done) = tool_done(1, &tc, ToolOutcome::Failed("exit 1".into()), "3s".into());
    assert!(event.is_none());
    assert_eq!((done.result.as_str(), done.is_error), ("Tool bash error: exit 1", true));

    let (event, done) = tool_done(1, &tc, ToolOutcome::TimedOut, "120s".into());
    assert!(event.is_none());
    assert_eq!((done.result.as_str(), done.is_error), ("Tool bash timed out after 120s", true));
}

#[test]
fn every_call_is_answered_in_the_conversation() {
    let mut agent = agent(&["bash"]);
    agent.append_tool_messages(&vec![], "", &vec![]);
    assert_eq!(agent.working_messages.len(), 1);
    let pending = vec![
        PendingTool { call: call("c0", "bash", "{}"), result: "out".into(), duration: "1s".into() },
        PendingTool { call: call("c1", "read", "[]"), result: String::new(), duration: String::new() },
    ];
    let details = vec![ReasoningDetail { json: "{\"a\":1}".into() }];
    agent.append_tool_messages(&pending, "because", &details);
    let msgs: &Vec<Message> = &agent.working_messages;
    assert_eq!(msgs.len(), 4);
    assert_eq!(msgs[1].role, Role::Assistant);
    assert_eq!(msgs[1].content, "");
    assert_eq!(msgs[1].reasoning_content, "because");
    assert_eq!(msgs[1].reasoning_details[0].json, "{\"a\":1}");
    assert_eq!(msgs[1].tool_calls.len(), 2);
    assert_eq!((msgs[1].tool_calls[1].id.as_str(), msgs[1].tool_calls[1].arguments.as_str()), ("c1", "[]"));
    assert_eq!(msgs[2].role, Role::Tool);
    assert_eq!((msgs[2].content.as_str(), msgs[2].tool_call_id.as_str()), ("out", "c0"));
    assert_eq!((msgs[2].name.as_str(), msgs[2].tool_duration.as_str()), ("bash", "1s"));
    assert_eq!((msgs[3].content.as_str(), msgs[3].tool_call_id.as_str()), ("(no output)", "c1"));
    assert!(msgs[3].tool_calls.is_empty() && msgs[3].reasoning_details.is_empty());
}

#[test]
fn a_subagent_that_would_delegate_finds_no_tool() {
    let agent = with_subagent(&[]);
    let def = &agent.subagents_state.subagents[0].def;
    let sub = AgentSession::new_subagent("s1".into(), def, "/tmp".into(), "c1");
    let tc = call("c", "delegate", "{}");
    let (_, routes, _) = sub.execute_tools(&vec![tc.clone()]);
    assert_eq!(routes, [ToolRoute::Registry]);
    assert!(matches!(sub.spawn_registry_task(0, &tc), RegistryTask::NotFound(_)));
}
