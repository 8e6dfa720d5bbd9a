//! What a running session reports, and how a terminal shows it.

use vstd::prelude::*;
use vstd::string::*;

use crate::message::CallModel;
use crate::message::StreamToolCall;
use crate::text::decimal;
use crate::text::decimal_string;
use crate::text::join;
use crate::text::joining_puts_the_separator_between;
use crate::text::lines;
use crate::text::lines_of;

verus! {

// ---------------------------------------------------------------------------------------------
// Costs

/// An amount of money, as the bits of a double-precision number. Amounts are carried and compared
/// here; they are added up by those who hold them as numbers.
#[derive(Clone, Copy, PartialEq, Eq, Structural, Debug)]
pub struct Cost {
    pub bits: u64,
}

/// The bits of positive infinity. The positive numbers are the bit patterns from 1 to this one;
/// those above it are no numbers or have the sign bit set.
pub const INFINITY_BITS: u64 = 0x7ff0_0000_0000_0000;

impl Cost {
    /// Whether the amount is a number greater than zero.
    pub open spec fn positive(self) -> bool {
        0 < self.bits <= INFINITY_BITS
    }

    /// No cost.
    pub fn zero() -> (r: Cost)
        ensures
            r == (Cost { bits: 0 }),
            !r.positive(),
    {
        Cost { bits: 0 }
    }

    /// Whether the amount is a number greater than zero.
    pub fn is_positive(&self) -> (r: bool)
        ensures
            r == self.positive(),
    {
        0 < self.bits && self.bits <= INFINITY_BITS
    }
}

// ---------------------------------------------------------------------------------------------
// Events

/// The model of a usage report.
#[verifier::ext_equal]
pub struct UsageModel {
    pub prompt_tokens: i32,
    pub completion_tokens: i32,
    pub total_tokens: i32,
    pub prompt_cache_hit_tokens: i32,
    pub prompt_tokens_details: Option<Seq<char>>,
    pub completion_tokens_details: Option<Seq<char>>,
    pub cost: Cost,
}

/// What an exchange with a model has used. The details are JSON text.
#[derive(Debug)]
pub struct Usage {
    pub prompt_tokens: i32,
    pub completion_tokens: i32,
    pub total_tokens: i32,
    pub prompt_cache_hit_tokens: i32,
    pub prompt_tokens_details: Option<String>,
    pub completion_tokens_details: Option<String>,
    pub cost: Cost,
}

impl DeepView for Usage {
    type V = UsageModel;

    open spec fn deep_view(&self) -> UsageModel {
        UsageModel {
            prompt_tokens: self.prompt_tokens,
            completion_tokens: self.completion_tokens,
            total_tokens: self.total_tokens,
            prompt_cache_hit_tokens: self.prompt_cache_hit_tokens,
            prompt_tokens_details: self.prompt_tokens_details.deep_view(),
            completion_tokens_details: self.completion_tokens_details.deep_view(),
            cost: self.cost,
        }
    }
}

/// A report of nothing but a cost.
pub open spec fn cost_only(cost: Cost) -> UsageModel {
    UsageModel {
        prompt_tokens: 0,
        completion_tokens: 0,
        total_tokens: 0,
        prompt_cache_hit_tokens: 0,
        prompt_tokens_details: None,
        completion_tokens_details: None,
        cost,
    }
}

impl Usage {
    /// A report of nothing but a cost.
    pub fn of_cost(cost: Cost) -> (r: Usage)
        ensures
            r.deep_view() == cost_only(cost),
    {
        Usage {
            prompt_tokens: 0,
            completion_tokens: 0,
            total_tokens: 0,
            prompt_cache_hit_tokens: 0,
            prompt_tokens_details: None,
            completion_tokens_details: None,
            cost,
        }
    }
}

/// The model of what happened.
#[verifier::ext_equal]
pub enum KindModel {
    TextDelta(Seq<char>),
    ReasoningDelta(Seq<char>),
    ToolCallStart(CallModel),
    ToolResult { id: Seq<char>, name: Seq<char>, result: Seq<char>, duration: Seq<char> },
    ToolError { id: Seq<char>, name: Seq<char>, error: Seq<char>, duration: Seq<char> },
    Usage(UsageModel),
    Retry(Seq<char>),
    RetryAvailable(Seq<char>),
    Error(Seq<char>),
    AgentDone(Seq<char>),
}

/// What happened.
#[derive(Debug)]
pub enum EventKind {
    /// A piece of the answer's text.
    TextDelta(String),
    /// A piece of the model's reasoning.
    ReasoningDelta(String),
    /// A tool is about to run.
    ToolCallStart { id: String, name: String, arguments: String },
    /// A tool has run.
    ToolResult { id: String, name: String, result: String, duration: String },
    /// A tool has failed.
    ToolError { id: String, name: String, error: String, duration: String },
    /// Something was used.
    Usage(Usage),
    /// The exchange is tried once more.
    Retry(String),
    /// The exchange has failed and can be tried once more.
    RetryAvailable(String),
    /// The exchange has failed.
    Error(String),
    /// The session has answered.
    AgentDone(String),
}

impl DeepView for EventKind {
    type V = KindModel;

    open spec fn deep_view(&self) -> KindModel {
        match self {
            EventKind::TextDelta(text) => KindModel::TextDelta(text@),
            EventKind::ReasoningDelta(text) => KindModel::ReasoningDelta(text@),
            EventKind::ToolCallStart { id, name, arguments } => KindModel::ToolCallStart(
                CallModel { id: id@, name: name@, arguments: arguments@ },
            ),
            EventKind::ToolResult { id, name, result, duration } => KindModel::ToolResult {
                id: id@,
                name: name@,
                result: result@,
                duration: duration@,
            },
            EventKind::ToolError { id, name, error, duration } => KindModel::ToolError {
                id: id@,
                name: name@,
                error: error@,
                duration: duration@,
            },
            EventKind::Usage(usage) => KindModel::Usage(usage.deep_view()),
            EventKind::Retry(text) => KindModel::Retry(text@),
            EventKind::RetryAvailable(text) => KindModel::RetryAvailable(text@),
            EventKind::Error(text) => KindModel::Error(text@),
            EventKind::AgentDone(text) => KindModel::AgentDone(text@),
        }
    }
}

/// The model of an event.
#[verifier::ext_equal]
pub struct EventModel {
    pub kind: KindModel,
    pub subagent: Seq<char>,
    pub subagent_id: Seq<char>,
}

/// An event: what happened, and, where it happened in a subagent, the role of the subagent and
/// the identity of the call that it works for.
#[derive(Debug)]
pub struct Event {
    pub kind: EventKind,
    pub subagent: String,
    pub subagent_id: String,
}

impl DeepView for Event {
    type V = EventModel;

    open spec fn deep_view(&self) -> EventModel {
        EventModel {
            kind: self.kind.deep_view(),
            subagent: self.subagent@,
            subagent_id: self.subagent_id@,
        }
    }
}

/// An event of the session itself.
pub open spec fn own_event(kind: KindModel) -> EventModel {
    EventModel { kind, subagent: seq![], subagent_id: seq![] }
}

/// The event that a tool is about to run.
pub open spec fn start_event(call: CallModel) -> EventModel {
    own_event(KindModel::ToolCallStart(call))
}

/// The event that a tool has run.
pub open spec fn result_event(
    call: CallModel,
    result: Seq<char>,
    duration: Seq<char>,
) -> EventModel {
    own_event(KindModel::ToolResult { id: call.id, name: call.name, result, duration })
}

/// The event that a tool has failed.
pub open spec fn error_event(call: CallModel, error: Seq<char>, duration: Seq<char>) -> EventModel {
    own_event(KindModel::ToolError { id: call.id, name: call.name, error, duration })
}

/// The event that something was used.
pub open spec fn usage_event(usage: UsageModel) -> EventModel {
    own_event(KindModel::Usage(usage))
}

impl Event {
    fn own(kind: EventKind) -> (r: Event)
        ensures
            r.deep_view() == own_event(kind.deep_view()),
    {
        Event { kind, subagent: String::new(), subagent_id: String::new() }
    }

    /// The event that a tool is about to run.
    pub fn tool_call_start(call: &StreamToolCall) -> (r: Event)
        ensures
            r.deep_view() == start_event(call.deep_view()),
    {
        Event::own(
            EventKind::ToolCallStart {
                id: call.id.clone(),
                name: call.name.clone(),
                arguments: call.arguments.clone(),
            },
        )
    }

    /// The event that a tool has run.
    pub fn tool_result_ev(call: &StreamToolCall, result: &str, duration: &str) -> (r: Event)
        ensures
            r.deep_view() == result_event(call.deep_view(), result@, duration@),
    {
        Event::own(
            EventKind::ToolResult {
                id: call.id.clone(),
                name: call.name.clone(),
                result: result.to_owned(),
                duration: duration.to_owned(),
            },
        )
    }

    /// The event that a tool has failed.
    pub fn tool_error_ev(call: &StreamToolCall, error: &str, duration: &str) -> (r: Event)
        ensures
            r.deep_view() == error_event(call.deep_view(), error@, duration@),
    {
        Event::own(
            EventKind::ToolError {
                id: call.id.clone(),
                name: call.name.clone(),
                error: error.to_owned(),
                duration: duration.to_owned(),
            },
        )
    }

    /// The event that something was used.
    pub fn usage_ev(usage: Usage) -> (r: Event)
        ensures
            r.deep_view() == usage_event(usage.deep_view()),
    {
        Event::own(EventKind::Usage(usage))
    }
}

// ---------------------------------------------------------------------------------------------
// Showing events

/// What is left to do about an event that was shown.
#[derive(Debug)]
pub enum StdioEvent {
    /// Nothing.
    Handled,
    /// A tool has failed.
    ToolError { name: String, error: String },
    /// The exchange has failed.
    Error(String),
    /// The session has answered.
    AgentDone,
}

/// The model of what is left to do.
#[verifier::ext_equal]
pub enum StdioModel {
    Handled,
    ToolError { name: Seq<char>, error: Seq<char> },
    Error(Seq<char>),
    AgentDone,
}

impl DeepView for StdioEvent {
    type V = StdioModel;

    open spec fn deep_view(&self) -> StdioModel {
        match self {
            StdioEvent::Handled => StdioModel::Handled,
            StdioEvent::ToolError { name, error } => StdioModel::ToolError {
                name: name@,
                error: error@,
            },
            StdioEvent::Error(text) => StdioModel::Error(text@),
            StdioEvent::AgentDone => StdioModel::AgentDone,
        }
    }
}

/// How many lines of a tool's result are shown.
pub const SHOWN_LINES: usize = 10;

/// The first `n` of these lines, each with its line feed.
pub open spec fn printed_lines(lines: Seq<Seq<char>>, n: int) -> Seq<char>
    decreases n,
{
    if n <= 0 {
        seq![]
    } else {
        printed_lines(lines, n - 1) + lines[n - 1] + "\n"@
    }
}

/// The result of a tool as it is shown: whole where it has no more than ten lines, else its first
/// ten and how many there are.
pub open spec fn shown_result(result: Seq<char>) -> Seq<char> {
    let all = lines(result);
    if all.len() > SHOWN_LINES {
        printed_lines(all, SHOWN_LINES as int) + "... ("@ + decimal(all.len()) + " lines total)\n"@
    } else {
        result + "\n"@
    }
}

/// What is printed for an event: the text of an answer as it comes, and, where tools are to be
/// shown, the names of those that start and the results of those that have run.
pub open spec fn printed(kind: KindModel, print_tools: bool) -> Seq<char> {
    match kind {
        KindModel::TextDelta(delta) => delta,
        KindModel::ToolCallStart(call) => if print_tools {
            "\n["@ + call.name + "()]\n"@
        } else {
            seq![]
        },
        KindModel::ToolResult { result, .. } => if print_tools {
            shown_result(result)
        } else {
            seq![]
        },
        _ => seq![],
    }
}

/// What is left to do about an event once it is printed.
pub open spec fn left_to_do(kind: KindModel) -> StdioModel {
    match kind {
        KindModel::ToolError { name, error, .. } => StdioModel::ToolError { name, error },
        KindModel::Error(text) => StdioModel::Error(text),
        KindModel::AgentDone(_) => StdioModel::AgentDone,
        _ => StdioModel::Handled,
    }
}

fn show_result(result: &str) -> (r: String)
    ensures
        r@ == shown_result(result@),
{
    let all = lines_of(result);
    let mut r = String::new();
    if all.len() > SHOWN_LINES {
        let mut i: usize = 0;
        while i < SHOWN_LINES
            invariant
                i <= SHOWN_LINES < all@.len(),
                all.deep_view() == lines(result@),
                r@ == printed_lines(lines(result@), i as int),
            decreases SHOWN_LINES - i,
        {
            assert(all.deep_view()[i as int] == all@[i as int]@);
            r.append(all[i].as_str());
            r.append("\n");
            i = i + 1;
        }
        r.append("... (");
        r.append(decimal_string(all.len() as u64).as_str());
        r.append(" lines total)\n");
    } else {
        r.append(result);
        r.append("\n");
        assert(r@ =~= result@ + "\n"@);
    }
    r
}

/// The text to print for an event, and what is left to do about it.
pub fn print_event(ev: &Event, print_tools: bool) -> (r: (String, StdioEvent))
    ensures
        r.0@ == printed(ev.kind.deep_view(), print_tools),
        r.1.deep_view() == left_to_do(ev.kind.deep_view()),
{
    match &ev.kind {
        EventKind::TextDelta(delta) => (delta.clone(), StdioEvent::Handled),
        EventKind::ToolCallStart { name, .. } => {
            let mut text = String::new();
            if print_tools {
                text.append("\n[");
                text.append(name.as_str());
                text.append("()]\n");
                assert(text@ =~= "\n["@ + name@ + "()]\n"@);
            }
            (text, StdioEvent::Handled)
        },
        EventKind::ToolResult { result, .. } => {
            let text = if print_tools {
                show_result(result.as_str())
            } else {
                String::new()
            };
            (text, StdioEvent::Handled)
        },
        EventKind::ToolError { name, error, .. } => (
            String::new(),
            StdioEvent::ToolError { name: name.clone(), error: error.clone() },
        ),
        EventKind::Error(msg) => (String::new(), StdioEvent::Error(msg.clone())),
        EventKind::AgentDone(_) => (String::new(), StdioEvent::AgentDone),
        _ => (String::new(), StdioEvent::Handled),
    }
}

/// Where tools are not to be shown, nothing is printed but the text of answers.
pub proof fn quiet_prints_text_only(kind: KindModel)
    ensures
        printed(kind, false) == match kind {
            KindModel::TextDelta(delta) => delta,
            _ => seq![],
        },
{
}

/// The models of events hold every field as it is.
pub proof fn events_are_viewed_field_by_field(ev: Event, usage: Usage, left: StdioEvent)
    ensures
        ev.deep_view().subagent == ev.subagent@,
        ev.deep_view().subagent_id == ev.subagent_id@,
        match ev.kind {
            EventKind::TextDelta(text) => ev.deep_view().kind == KindModel::TextDelta(text@),
            EventKind::ReasoningDelta(text) => ev.deep_view().kind == KindModel::ReasoningDelta(
                text@,
            ),
            EventKind::ToolCallStart { id, name, arguments } => {
                &&& ev.deep_view().kind is ToolCallStart
                &&& ev.deep_view().kind->ToolCallStart_0.id == id@
                &&& ev.deep_view().kind->ToolCallStart_0.name == name@
                &&& ev.deep_view().kind->ToolCallStart_0.arguments == arguments@
            },
            EventKind::ToolResult { id, name, result, duration } => {
                &&& ev.deep_view().kind is ToolResult
                &&& ev.deep_view().kind->ToolResult_id == id@
                &&& ev.deep_view().kind->ToolResult_name == name@
                &&& ev.deep_view().kind->result == result@
                &&& ev.deep_view().kind->ToolResult_duration == duration@
            },
            EventKind::ToolError { id, name, error, duration } => {
                &&& ev.deep_view().kind is ToolError
                &&& ev.deep_view().kind->ToolError_id == id@
                &&& ev.deep_view().kind->ToolError_name == name@
                &&& ev.deep_view().kind->error == error@
                &&& ev.deep_view().kind->ToolError_duration == duration@
            },
            EventKind::Usage(u) => ev.deep_view().kind == KindModel::Usage(u.deep_view()),
            EventKind::Retry(text) => ev.deep_view().kind == KindModel::Retry(text@),
            EventKind::RetryAvailable(text) => ev.deep_view().kind == KindModel::RetryAvailable(
                text@,
            ),
            EventKind::Error(text) => ev.deep_view().kind == KindModel::Error(text@),
            EventKind::AgentDone(text) => ev.deep_view().kind == KindModel::AgentDone(text@),
        },
        usage.deep_view().prompt_tokens == usage.prompt_tokens,
        usage.deep_view().completion_tokens == usage.completion_tokens,
        usage.deep_view().total_tokens == usage.total_tokens,
        usage.deep_view().prompt_cache_hit_tokens == usage.prompt_cache_hit_tokens,
        usage.deep_view().cost == usage.cost,
        match usage.prompt_tokens_details {
            None => usage.deep_view().prompt_tokens_details is None,
            Some(text) => usage.deep_view().prompt_tokens_details == Some(text@),
        },
        match usage.completion_tokens_details {
            None => usage.deep_view().completion_tokens_details is None,
            Some(text) => usage.deep_view().completion_tokens_details == Some(text@),
        },
        match left {
            StdioEvent::Handled => left.deep_view() is Handled,
            StdioEvent::ToolError { name, error } => {
                &&& left.deep_view() is ToolError
                &&& left.deep_view()->name == name@
                &&& left.deep_view()->error == error@
            },
            StdioEvent::Error(text) => left.deep_view() == StdioModel::Error(text@),
            StdioEvent::AgentDone => left.deep_view() is AgentDone,
        },
{
}

/// A cost is positive where the sign bit of the number is not set, the number is not zero, and it
/// is a number: no larger than infinity.
pub proof fn positive_costs_are_positive_numbers(cost: Cost)
    ensures
        cost.positive() <==> cost.bits < 0x8000_0000_0000_0000 && cost.bits != 0 && cost.bits
            <= 0x7ff0_0000_0000_0000,
{
}

/// The events of a call carry what the call says and what came of it, unchanged, and are the
/// session's own. A report of a cost says nothing else.
pub proof fn events_carry_what_they_report(
    call: CallModel,
    text: Seq<char>,
    duration: Seq<char>,
    cost: Cost,
)
    ensures
        ({
            let start = start_event(call);
            let result = result_event(call, text, duration);
            let error = error_event(call, text, duration);
            let usage = usage_event(cost_only(cost));
            &&& start.kind == KindModel::ToolCallStart(call)
            &&& result.kind is ToolResult && result.kind->ToolResult_id == call.id
            &&& result.kind->ToolResult_name == call.name && result.kind->result == text
            &&& result.kind->ToolResult_duration == duration
            &&& error.kind is ToolError && error.kind->ToolError_id == call.id
            &&& error.kind->ToolError_name == call.name && error.kind->error == text
            &&& error.kind->ToolError_duration == duration
            &&& usage.kind is Usage && usage.kind->Usage_0.cost == cost
            &&& usage.kind->Usage_0.prompt_tokens == 0 && usage.kind->Usage_0.completion_tokens == 0
            &&& usage.kind->Usage_0.total_tokens == 0
            &&& usage.kind->Usage_0.prompt_cache_hit_tokens == 0
            &&& usage.kind->Usage_0.prompt_tokens_details is None
            &&& usage.kind->Usage_0.completion_tokens_details is None
            &&& start.subagent.len() == 0 && start.subagent_id.len() == 0
            &&& result.subagent.len() == 0 && result.subagent_id.len() == 0
            &&& error.subagent.len() == 0 && error.subagent_id.len() == 0
            &&& usage.subagent.len() == 0 && usage.subagent_id.len() == 0
        }),
{
}

proof fn printed_lines_are_joined(lines: Seq<Seq<char>>, n: int)
    requires
        0 < n <= lines.len(),
    ensures
        printed_lines(lines, n) == join(lines.take(n), seq!['\n']) + seq!['\n'],
    decreases n,
{
    reveal_strlit("\n");
    assert("\n"@ =~= seq!['\n']);
    let last = seq![lines[n - 1]];
    joining_puts_the_separator_between(last, last, lines[n - 1], seq!['\n']);
    if n == 1 {
        assert(lines.take(1) =~= last);
        assert(printed_lines(lines, 0) =~= Seq::<char>::empty());
        assert(printed_lines(lines, 1) =~= lines[0] + seq!['\n']);
    } else {
        printed_lines_are_joined(lines, n - 1);
        let front = lines.take(n - 1);
        assert(lines.take(n) =~= front + last);
        joining_puts_the_separator_between(front, last, lines[n - 1], seq!['\n']);
        assert(printed_lines(lines, n) =~= join(lines.take(n), seq!['\n']) + seq!['\n']);
    }
}

/// The text of an answer is printed as it is, whether tools are shown or not. Where they are, the
/// start of a call shows the name of its tool; a result of up to ten lines is printed whole, and of
/// a longer one the first ten lines and how many there are.
pub proof fn events_are_printed_in_full(
    text: Seq<char>,
    print_tools: bool,
    call: CallModel,
    id: Seq<char>,
    name: Seq<char>,
    duration: Seq<char>,
)
    ensures
        printed(KindModel::TextDelta(text), print_tools) == text,
        printed(KindModel::ToolCallStart(call), true) == "\n["@ + call.name + "()]\n"@,
        printed(KindModel::ToolResult { id, name, result: text, duration }, true) == if lines(
            text,
        ).len() <= 10 {
            text + seq!['\n']
        } else {
            join(lines(text).take(10), seq!['\n']) + seq!['\n'] + "... ("@ + decimal(
                lines(text).len(),
            ) + " lines total)\n"@
        },
{
    reveal_strlit("\n");
    assert("\n"@ =~= seq!['\n']);
    if lines(text).len() > 10 {
        printed_lines_are_joined(lines(text), 10);
    }
}

/// What is left to do about an event: a failure of a tool or of the exchange is handed on with its
/// words, the end is handed on, and everything else is done with.
pub proof fn failures_are_handed_on(kind: KindModel)
    ensures
        match kind {
            KindModel::ToolError { name, error, .. } => {
                &&& left_to_do(kind) is ToolError
                &&& left_to_do(kind)->name == name
                &&& left_to_do(kind)->error == error
            },
            KindModel::Error(text) => left_to_do(kind) == StdioModel::Error(text),
            KindModel::AgentDone(_) => left_to_do(kind) is AgentDone,
            _ => left_to_do(kind) is Handled,
        },
{
}

} // verus!
