use agent_core::delegate::delegate_done;
use agent_core::delegate::extract_parent_result;
use agent_core::delegate::run_delegate;
use agent_core::delegate::unknown_role;
use agent_core::delegate::DelegateParams;
use agent_core::delegate::DelegateTask;
use agent_core::delegate::SubagentExit;
use agent_core::event::Cost;
use agent_core::event::Event;
use agent_core::event::EventKind;
use agent_core::event::Usage;
use agent_core::message::Message;
use agent_core::message::Parameters;
use agent_core::message::Registry;
use agent_core::message::Role;
use agent_core::message::StreamToolCall;
use agent_core::message::ToolCall;
use agent_core::message::ToolDef;
use agent_core::message::ToolDefFunction;
use agent_core::outside::Timestamp;
use agent_core::round::tool_done;
use agent_core::round::CostTotals;
use agent_core::round::RegistryTask;
use agent_core::round::ToolOutcome;
use agent_core::round::ToolRoute;
use agent_core::session::AgentSession;
use agent_core::session::ClientInfo;
use agent_core::session::Session;
use agent_core::session::SubagentDef;
use agent_core::session::SubagentEntry;

fn call(id: &str, name: &str, arguments: &str) -> StreamToolCall {
    StreamToolCall { id: id.into(), name: name.into(), arguments: arguments.into() }
}

fn registry(names: &[&str]) -> Registry {
    let defs = names
        .iter()
        .map(|name| ToolDef {
            def_type: "function".into(),
            function: ToolDefFunction {
                name: name.to_string(),
                description: String::new(),
                parameters: Parameters::Json("{}".into()),
            },
        })
        .collect();
    Registry { defs }
}

fn dummy_session() -> Session {
    let time = Timestamp { secs: 0, nanos: 0 };
    Session {
        id: "s1".into(),
        name: String::new(),
        hash: "h".into(),
        named: false,
        current_turn: String::new(),
        created_at: time,
        updated_at: time,
        turn_count: 0,
        prompt_tokens: 0,
        completion_tokens: 0,
        total_tokens: 0,
        context_tokens: 0,
        cost: Cost::zero(),
    }
}

/// A parent that can delegate to a coder with these tools.
fn parent(sub_tools: &[&str]) -> AgentSession {
    let mut agent = AgentSession::new(
        dummy_session(),
        ClientInfo { context_window: 8000 },
        registry(&[]),
        "sys".into(),
        "/tmp".into(),
    );
    let def = SubagentDef {
        id: "coder".into(),
        description: "coder".into(),
        client: ClientInfo { context_window: 8000 },
        registry: registry(sub_tools),
        system_prompt: "sub".into(),
        model_name: "mock".into(),
    };
    agent.set_subagents(vec![SubagentEntry { role: "coder".into(), def }]);
    agent
}

fn message(role: Role, content: &str) -> Message {
    Message {
        role,
        content: content.into(),
        reasoning_content: String::new(),
        reasoning_details: vec![],
        tool_calls: vec![],
        tool_call_id: String::new(),
        name: String::new(),
        tool_duration: String::new(),
    }
}

fn calling(content: &str, name: &str) -> Message {
    let tool_calls = vec![ToolCall { id: "sc1".into(), name: name.into(), arguments: "{}".into() }];
    Message { tool_calls, ..message(Role::Assistant, content) }
}

fn answering(name: &str, content: &str) -> Message {
    Message { tool_call_id: "sc1".into(), name: name.into(), ..message(Role::Tool, content) }
}

fn event(kind: EventKind) -> Event {
    Event { kind, subagent: String::new(), subagent_id: String::new() }
}

/// The arguments of the delegate tool, read field by field.
fn params(arguments: &str) -> Result<DelegateParams, String> {
    let value: serde_json::Value = match serde_json::from_str(arguments) {
        Ok(value) => value,
        Err(e) => return Err(e.to_string()),
    };
    let field = |name: &str| value.get(name).and_then(|v| v.as_str()).map(|s| s.to_string());
    let missing = |name: &str| format!("missing field `{name}`");
    Ok(DelegateParams {
        subagent: field("subagent").ok_or_else(|| missing("subagent"))?,
        task: field("task").ok_or_else(|| missing("task"))?,
        context: field("context").unwrap_or_default(),
    })
}

/// One answer of a scripted model: its text and the calls that it makes.
struct Answer {
    text: &'static str,
    calls: Vec<StreamToolCall>,
}

/// What a scripted model does: it answers, or its stream breaks off after some text.
enum Step {
    Answer(Answer),
    Broken { text: &'static str, error: &'static str },
}

/// Runs the calls of one answer of a session, where every tool gives the same result.
fn run_round(
    agent: &mut AgentSession,
    calls: &Vec<StreamToolCall>,
    tool_result: &str,
    script: &mut Vec<Step>,
    events: &mut Vec<Event>,
) {
    let (starts, routes, mut round) = agent.execute_tools(calls);
    events.extend(starts);
    for (i, tc) in calls.iter().enumerate() {
        let (event, done) = match routes[i] {
            ToolRoute::Registry => match agent.spawn_registry_task(i, tc) {
                RegistryTask::NotFound(done) => (None, done),
                RegistryTask::Refused(outcome) => tool_done(i, tc, outcome, "0ms".into()),
                RegistryTask::Run(_) => tool_done(i, tc, ToolOutcome::Finished(tool_result.into()), "0ms".into()),
            },
            ToolRoute::Delegate => match agent.spawn_delegate_task(i, params(&tc.arguments)) {
                DelegateTask::Refused(done) => (None, done),
                DelegateTask::Run { params, def } => {
                    let (mut run, mut sub, text) =
                        run_delegate(tc, params, &def, agent.sess.id.clone(), agent.cwd.clone());
                    let mut heard = Vec::new();
                    run_session(&mut sub, &text, tool_result, script, &mut vec![], &mut heard);
                    for ev in heard {
                        events.extend(run.on_event(ev));
                    }
                    let exit = SubagentExit::Finished {
                        prompt_tokens: sub.sess.prompt_tokens,
                        completion_tokens: sub.sess.completion_tokens,
                        cost: sub.sess.cost,
                        captured_msgs: sub.captured_msgs,
                        working_msgs: sub.working_messages,
                    };
                    delegate_done(i, tc, run.finish(exit), "0ms".into())
                }
            },
        };
        events.extend(event);
        let totals = CostTotals { session: Cost::zero(), round: Cost::zero() };
        agent.task_joined(&mut round, done, totals);
    }
    let (pending, closing) = round.finish();
    events.extend(closing);
    agent.append_tool_messages(&pending, "", &vec![]);
}

/// Lets a session answer a prompt, with a scripted model.
fn run_session(
    agent: &mut AgentSession,
    prompt: &str,
    tool_result: &str,
    script: &mut Vec<Step>,
    sub_script: &mut Vec<Step>,
    events: &mut Vec<Event>,
) {
    agent.working_messages.push(message(Role::User, prompt));
    while !script.is_empty() {
        match script.remove(0) {
            Step::Broken { text, error } => {
                events.push(event(EventKind::TextDelta(text.into())));
                events.push(event(EventKind::RetryAvailable(error.into())));
                return;
            }
            Step::Answer(answer) => {
                if !answer.text.is_empty() {
                    events.push(event(EventKind::TextDelta(answer.text.into())));
                }
                if answer.calls.is_empty() {
                    agent.working_messages.push(message(Role::Assistant, answer.text));
                    events.push(event(EventKind::AgentDone(String::new())));
                    return;
                }
                run_round(agent, &answer.calls, tool_result, sub_script, events);
            }
        }
    }
}

fn says(text: &'static str) -> Step {
    Step::Answer(Answer { text, calls: vec![] })
}

fn uses(text: &'static str, tc: StreamToolCall) -> Step {
    Step::Answer(Answer { text, calls: vec![tc] })
}

/// What a parent reports that delegates once and then is done.
fn delegate_once(arguments: &str, sub_tools: &[&str], tool_result: &str, sub_script: Vec<Step>) -> Vec<Event> {
    let mut agent = parent(sub_tools);
    let (mut session, text) = agent.prompt_with_handle("please delegate");
    let mut script = vec![uses("", call("call1", "delegate", arguments)), says("parent-done")];
    let mut sub_script = sub_script;
    let mut events = Vec::new();
    run_session(&mut session, &text, tool_result, &mut script, &mut sub_script, &mut events);
    events
}

fn delegate_result(events: &[Event]) -> Option<String> {
    events.iter().find_map(|ev| match &ev.kind {
        EventKind::ToolResult { name, result, .. } if name == "delegate" => Some(result.clone()),
        _ => None,
    })
}

fn delegate_error(events: &[Event]) -> Option<String> {
    events.iter().find_map(|ev| match &ev.kind {
        EventKind::ToolError { name, error, .. } if name == "delegate" => Some(error.clone()),
        _ => None,
    })
}

fn final_text(events: &[Event]) -> String {
    let mut text = String::new();
    for ev in events {
        if let EventKind::TextDelta(delta) = &ev.kind {
            text.push_str(delta);
        }
    }
    text
}

#[test]
fn test_delegate_end_to_end() {
    let args = r#"{"subagent":"coder","task":"say hello","context":""}"#;
    let events = delegate_once(args, &[], "", vec![says("subagent result here")]);
    let delegate_result = delegate_result(&events).unwrap_or_default();
    assert_eq!(final_text(&events), "parent-done");
    assert!(delegate_result.contains("subagent result here"), "delegate result was: {:?}", delegate_result);
}

#[test]
fn test_delegate_subagent_with_tool_round() {
    let args = r#"{"subagent":"coder","task":"read and summarize","context":""}"#;
    let script = vec![uses("", call("sc1", "read_file", "{}")), says("summarized file contents")];
    let events = delegate_once(args, &["read_file"], "FILE BODY", script);
    let delegate_result = delegate_result(&events).unwrap_or_default();
    assert_eq!(final_text(&events), "parent-done");
    assert!(delegate_result.contains("summarized file contents"), "delegate result was: {:?}", delegate_result);
    let inner = events
        .iter()
        .find(|ev| matches!(&ev.kind, EventKind::ToolResult { name, .. } if name == "read_file"))
        .expect("the subagent's tool");
    assert_eq!((inner.subagent.as_str(), inner.subagent_id.as_str()), ("coder", "call1"));
}

#[test]
fn test_delegate_invalid_params_is_error() {
    let events = delegate_once(r#"{"subagent":"coder"}"#, &[], "", vec![]);
    let err_text = delegate_error(&events).expect("expected ToolError for bad args");
    assert!(err_text.contains("invalid delegate params"), "err was: {:?}", err_text);
}

#[test]
fn test_delegate_unknown_subagent_is_error() {
    let events = delegate_once(r#"{"subagent":"nope","task":"x"}"#, &[], "", vec![]);
    let err_text = delegate_error(&events).expect("expected ToolError for unknown subagent");
    assert!(err_text.contains("not found"), "err was: {:?}", err_text);
    assert_eq!(err_text, "subagent \"nope\" not found");
}

#[test]
fn test_delegate_no_final_message_lists_tools() {
    let script = vec![uses("", call("sc1", "read_file", "{}")), says("")];
    let events = delegate_once(r#"{"subagent":"coder","task":"just tool"}"#, &["read_file"], "body", script);
    let delegate_result = delegate_result(&events).unwrap_or_default();
    assert!(delegate_result.contains("tools used: read_file"), "delegate result was: {:?}", delegate_result);
}

#[test]
fn test_delegate_ignores_pretool_chatter_without_final() {
    let script = vec![uses("I'll inspect the file first", call("sc1", "read_file", "{}")), says("")];
    let events = delegate_once(r#"{"subagent":"coder","task":"just tool"}"#, &["read_file"], "body", script);
    let delegate_result = delegate_result(&events).unwrap_or_default();
    assert!(!delegate_result.contains("I'll inspect"), "pre-tool chatter leaked: {:?}", delegate_result);
    assert!(delegate_result.contains("tools used: read_file"), "delegate result was: {:?}", delegate_result);
}

#[test]
fn test_delegate_subagent_error_is_tool_error() {
    let script = vec![Step::Broken { text: "partial", error: "500: boom" }];
    let events = delegate_once(r#"{"subagent":"coder","task":"do work"}"#, &[], "", script);
    let err_text = delegate_error(&events).expect("expected ToolError for subagent RetryAvailable");
    assert!(delegate_result(&events).is_none(), "must not emit ToolResult on subagent error");
    assert!(err_text.contains("subagent error") && err_text.contains("boom"), "err was: {:?}", err_text);
    assert!(!err_text.contains("partial"), "partial content must not leak into error: {:?}", err_text);
}

#[test]
fn test_delegate_empty_task_is_error() {
    let events = delegate_once(r#"{"subagent":"coder","task":"   "}"#, &[], "", vec![]);
    let err_text = delegate_error(&events).expect("expected ToolError for empty task");
    assert!(err_text.contains("task is empty"), "err was: {:?}", err_text);
}

fn accept(subagent: &str, task: &str) -> DelegateTask {
    let params = DelegateParams { subagent: subagent.into(), task: task.into(), context: String::new() };
    parent(&[]).spawn_delegate_task(7, Ok(params))
}

fn refused(task: DelegateTask) -> String {
    match task {
        DelegateTask::Refused(done) => {
            assert_eq!(done.index, 7);
            assert_eq!(done.duration, "");
            assert!(done.is_error && done.delegate_data.is_none());
            done.result
        }
        other => panic!("{other:?}"),
    }
}

#[test]
fn a_task_is_refused_with_a_reason() {
    assert_eq!(
        refused(parent(&[]).spawn_delegate_task(7, Err("broken".into()))),
        "invalid delegate params: broken"
    );
    assert_eq!(refused(accept("coder", "")), "invalid delegate params: task is empty");
    assert_eq!(refused(accept("nope", " \n\u{3000}\t")), "invalid delegate params: task is empty");
    assert_eq!(refused(accept("no\"pe\n", "x")), format!("subagent {:?} not found", "no\"pe\n"));
    assert_eq!(refused(accept("", "x")), "subagent \"\" not found");
}

#[test]
fn a_role_is_named_as_it_is_quoted() {
    assert_eq!(refused(unknown_role(7, "<nope>")), "subagent <nope> not found");
}

#[test]
fn a_task_is_accepted_by_its_role() {
    match accept("coder", " x ") {
        DelegateTask::Run { params, def } => {
            assert_eq!(params.task, " x ");
            assert_eq!(def.system_prompt, "sub");
        }
        other => panic!("{other:?}"),
    }
}

#[test]
fn a_subagent_is_told_the_task_and_the_context() {
    let agent = parent(&["read"]);
    let def = &agent.subagents_state.subagents[0].def;
    let tc = call("call1", "delegate", "");
    let params = DelegateParams { subagent: "coder".into(), task: "do it".into(), context: "here".into() };
    let (run, sub, text) = run_delegate(&tc, params, def, "s1".into(), "/tmp".into());
    assert_eq!(text, "do it\n\nhere");
    assert_eq!((run.sub_id.as_str(), run.tc_id.as_str(), run.had_error), ("coder", "call1", false));
    assert_eq!(sub.api_session_id, "s1:sub:coder:call1");
    assert!(sub.subagents_state.is_subagent && sub.working_messages.is_empty());
    let params = DelegateParams { subagent: "coder".into(), task: "do it".into(), context: String::new() };
    assert_eq!(run_delegate(&tc, params, def, "s1".into(), "/tmp".into()).2, "do it");
}

fn watch() -> agent_core::delegate::DelegateRun {
    agent_core::delegate::DelegateRun {
        sub_id: "coder".into(),
        tc_id: "call1".into(),
        had_error: false,
        error_msg: String::new(),
    }
}

#[test]
fn events_of_tools_are_passed_on_and_no_others() {
    let mut run = watch();
    let tc = call("sc1", "read", "{}");
    for ev in [Event::tool_call_start(&tc), Event::tool_result_ev(&tc, "r", ""), Event::tool_error_ev(&tc, "e", "")] {
        let passed = run.on_event(ev).expect("an event of a tool");
        assert_eq!((passed.subagent.as_str(), passed.subagent_id.as_str()), ("coder", "call1"));
    }
    for kind in [
        EventKind::TextDelta("t".into()),
        EventKind::ReasoningDelta("r".into()),
        EventKind::Usage(Usage::of_cost(Cost::zero())),
        EventKind::Retry("r".into()),
        EventKind::AgentDone("d".into()),
    ] {
        assert!(run.on_event(event(kind)).is_none());
    }
    assert!(!run.had_error);
    assert!(run.on_event(event(EventKind::Error("first".into()))).is_none());
    assert!(run.on_event(event(EventKind::RetryAvailable("second".into()))).is_none());
    assert!(run.had_error);
    assert_eq!(run.error_msg, "second");
}

fn finished(captured: Vec<Message>, working: Vec<Message>) -> SubagentExit {
    SubagentExit::Finished {
        prompt_tokens: 11,
        completion_tokens: 7,
        cost: Cost { bits: 0.5f64.to_bits() },
        captured_msgs: captured,
        working_msgs: working,
    }
}

#[test]
fn a_subagent_that_finished_gives_its_result() {
    let exit = finished(vec![], vec![message(Role::Assistant, "working")]);
    let (result, failed, data) = watch().finish(exit);
    assert_eq!((result.as_str(), failed), ("working", false));
    let data = data.unwrap();
    assert_eq!((data.prompt_tokens, data.completion_tokens), (11, 7));
    assert_eq!(f64::from_bits(data.cost.bits), 0.5);
    assert_eq!((data.subagent_id.as_str(), data.tool_call_id.as_str()), ("coder", "call1"));
    assert_eq!(data.msgs.len(), 1);

    let captured = vec![message(Role::User, "q"), message(Role::Assistant, "captured")];
    let (result, _, data) = watch().finish(finished(captured, vec![message(Role::Assistant, "working")]));
    assert_eq!(result, "captured");
    assert_eq!(data.unwrap().msgs.len(), 2);
}

#[test]
fn a_subagent_with_an_error_gives_the_error() {
    let mut run = watch();
    run.on_event(event(EventKind::Error("boom".into())));
    let (result, failed, data) = run.finish(finished(vec![], vec![message(Role::Assistant, "partial")]));
    assert_eq!((result.as_str(), failed), ("(subagent error: boom)", true));
    assert_eq!(data.unwrap().prompt_tokens, 11);

    let mut run = watch();
    run.on_event(event(EventKind::Error(String::new())));
    let (result, failed, _) = run.finish(finished(vec![], vec![]));
    assert_eq!((result.as_str(), failed), ("(subagent encountered an error)", true));
}

#[test]
fn a_subagent_that_did_not_finish_has_failed() {
    for (exit, expected) in [
        (SubagentExit::Aborted, "(subagent aborted)"),
        (SubagentExit::Panicked("task 3 panicked".into()), "subagent task panicked: task 3 panicked"),
    ] {
        let (result, failed, data) = watch().finish(exit);
        assert_eq!((result.as_str(), failed), (expected, true));
        let data = data.unwrap();
        assert_eq!((data.prompt_tokens, data.completion_tokens, data.cost.bits), (0, 0, 0));
        assert!(data.msgs.is_empty());
        assert_eq!(data.tool_call_id, "call1");
    }
}

#[test]
fn the_end_of_a_delegated_task_reports_a_result() {
    let tc = call("call1", "delegate", "{}");
    let (event, done) = delegate_done(2, &tc, ("out".into(), false, None), "4s".into());
    assert!(matches!(event.unwrap().kind, EventKind::ToolResult { result, duration, .. } if result == "out" && duration == "4s"));
    assert_eq!((done.index, done.result.as_str(), done.is_error), (2, "out", false));
    let (event, done) = delegate_done(2, &tc, ("bad".into(), true, None), "4s".into());
    assert!(event.is_none() && done.is_error);
}

#[test]
fn the_result_is_the_last_final_message() {
    let a = |text: &str| message(Role::Assistant, text);
    assert_eq!(extract_parent_result(&vec![]), "(subagent produced no output)");
    assert_eq!(extract_parent_result(&vec![a("one"), a("two")]), "two");
    assert_eq!(extract_parent_result(&vec![a("one"), a(""), message(Role::User, "u")]), "one");
    assert_eq!(
        extract_parent_result(&vec![a("before"), calling("", "read"), answering("read", "x"), a("after")]),
        "after"
    );
    assert_eq!(
        extract_parent_result(&vec![a("before"), calling("chatter", "read"), answering("read", "x"), a("")]),
        "(subagent finished without a final message; tools used: read)"
    );
    assert_eq!(extract_parent_result(&vec![a("before"), calling("chatter", "read")]), "(subagent produced no output)");
    assert_eq!(
        extract_parent_result(&vec![
            answering("read", ""),
            answering("bash", ""),
            answering("", ""),
            answering("read", ""),
        ]),
        "(subagent finished without a final message; tools used: read, bash)"
    );
}

#[test]
fn the_result_of_a_subagent_answers_the_call_of_the_parent() {
    let mut agent = parent(&[]);
    let calls = vec![call("call1", "delegate", r#"{"subagent":"coder","task":"x"}"#)];
    run_round(&mut agent, &calls, "", &mut vec![says("word for word")], &mut vec![]);
    let answer = agent.working_messages.last().expect("an answer");
    assert_eq!((answer.tool_call_id.as_str(), answer.content.as_str()), ("call1", "word for word"));
}
