use agent_core::event::print_event;
use agent_core::event::Cost;
use agent_core::event::Event;
use agent_core::event::EventKind;
use agent_core::event::StdioEvent;
use agent_core::event::Usage;
use agent_core::message::StreamToolCall;

fn event(kind: EventKind) -> Event {
    Event { kind, subagent: String::new(), subagent_id: String::new() }
}

fn call() -> StreamToolCall {
    StreamToolCall { id: "c1".into(), name: "bash".into(), arguments: "{}".into() }
}

#[test]
fn text_is_printed_as_it_comes() {
    for tools in [false, true] {
        let (text, left) = print_event(&event(EventKind::TextDelta("héllo\n".into())), tools);
        assert_eq!(text, "héllo\n");
        assert!(matches!(left, StdioEvent::Handled));
    }
}

#[test]
fn tools_are_printed_where_they_are_to_be_shown() {
    let start = Event::tool_call_start(&call());
    assert_eq!(print_event(&start, true).0, "\n[bash()]\n");
    assert_eq!(print_event(&start, false).0, "");
    let short = Event::tool_result_ev(&call(), "one\ntwo", "1s");
    assert_eq!(print_event(&short, true).0, "one\ntwo\n");
    assert_eq!(print_event(&short, false).0, "");
}

#[test]
fn long_results_are_cut_to_ten_lines() {
    let ten: String = (1..=10).map(|i| format!("line {i}\n")).collect();
    let event = Event::tool_result_ev(&call(), &ten, "");
    assert_eq!(print_event(&event, true).0, format!("{ten}\n"));
    let many: String = (1..=123).map(|i| format!("line {i}\r\n")).collect();
    let event = Event::tool_result_ev(&call(), &many, "");
    assert_eq!(print_event(&event, true).0, format!("{ten}... (123 lines total)\n"));
}

#[test]
fn failures_and_the_end_are_left_to_the_caller() {
    let (text, left) = print_event(&Event::tool_error_ev(&call(), "boom", "2s"), true);
    assert_eq!(text, "");
    match left {
        StdioEvent::ToolError { name, error } => assert_eq!((name.as_str(), error.as_str()), ("bash", "boom")),
        other => panic!("{other:?}"),
    }
    match print_event(&event(EventKind::Error("bad".into())), false).1 {
        StdioEvent::Error(msg) => assert_eq!(msg, "bad"),
        other => panic!("{other:?}"),
    }
    assert!(matches!(print_event(&event(EventKind::AgentDone("x".into())), false).1, StdioEvent::AgentDone));
}

#[test]
fn other_events_are_handled_silently() {
    for kind in [
        EventKind::ReasoningDelta("r".into()),
        EventKind::Retry("r".into()),
        EventKind::RetryAvailable("r".into()),
        EventKind::Usage(Usage::of_cost(Cost::zero())),
    ] {
        let (text, left) = print_event(&event(kind), true);
        assert_eq!(text, "");
        assert!(matches!(left, StdioEvent::Handled));
    }
}

#[test]
fn costs_are_positive_as_numbers_are() {
    for x in [0.0f64, -0.0, 1.5, -1.5, f64::MIN_POSITIVE, 5e-324, f64::INFINITY, f64::NEG_INFINITY, f64::NAN, -f64::NAN, f64::MAX] {
        let cost = Cost { bits: x.to_bits() };
        assert_eq!(cost.is_positive(), x > 0.0, "{x}");
    }
    assert_eq!(f64::from_bits(Cost::zero().bits), 0.0);
}
