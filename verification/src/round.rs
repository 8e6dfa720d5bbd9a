//! Tool rounds: running the tool calls of one answer, and writing their results into the
//! conversation.

use vstd::prelude::*;
use vstd::seq_lib::*;
use vstd::string::*;

use crate::event::cost_only;
use crate::event::error_event;
use crate::event::result_event;
use crate::event::start_event;
use crate::event::usage_event;
use crate::event::Cost;
use crate::event::Event;
use crate::event::EventModel;
use crate::event::Usage;
use crate::message::tool_names;
use crate::message::tools_are_named_by_their_definitions;
use crate::message::CallModel;
use crate::message::Message;
use crate::message::MessageModel;
use crate::message::ReasoningDetail;
use crate::message::Role;
use crate::message::StreamToolCall;
use crate::message::ToolCall;
use crate::outside::json_parsed;
use crate::outside::parse_json;
use crate::prompt::TOOL_TIMEOUT_SECS;
use crate::roles::delegate_tool_name;
use crate::session::AgentModel;
use crate::session::AgentSession;
use crate::session::SessionModel;
use crate::session::SubagentTurn;
use crate::session::SubagentsModel;
use crate::session::TurnModel;
use crate::text::decimal;
use crate::text::decimal_string;
use crate::text::digit;
use crate::text::str_eq;

verus! {

// ---------------------------------------------------------------------------------------------
// The calls of a round

/// The model of a call in a round.
#[verifier::ext_equal]
pub struct PendingModel {
    pub call: CallModel,
    pub result: Seq<char>,
    pub duration: Seq<char>,
}

/// A call in a round, with its result and how long it took, as far as they are known.
#[derive(Debug)]
pub struct PendingTool {
    pub call: StreamToolCall,
    pub result: String,
    pub duration: String,
}

impl DeepView for PendingTool {
    type V = PendingModel;

    open spec fn deep_view(&self) -> PendingModel {
        PendingModel {
            call: self.call.deep_view(),
            result: self.result@,
            duration: self.duration@,
        }
    }
}

/// The model of what a delegated task has used and said.
#[verifier::ext_equal]
pub struct DelegateDataModel {
    pub prompt_tokens: i32,
    pub completion_tokens: i32,
    pub cost: Cost,
    pub msgs: Seq<MessageModel>,
    pub subagent_id: Seq<char>,
    pub tool_call_id: Seq<char>,
}

/// What a delegated task has used and said.
#[derive(Debug)]
pub struct DelegateData {
    pub prompt_tokens: i32,
    pub completion_tokens: i32,
    pub cost: Cost,
    pub msgs: Vec<Message>,
    pub subagent_id: String,
    pub tool_call_id: String,
}

impl DeepView for DelegateData {
    type V = DelegateDataModel;

    open spec fn deep_view(&self) -> DelegateDataModel {
        DelegateDataModel {
            prompt_tokens: self.prompt_tokens,
            completion_tokens: self.completion_tokens,
            cost: self.cost,
            msgs: self.msgs.deep_view(),
            subagent_id: self.subagent_id@,
            tool_call_id: self.tool_call_id@,
        }
    }
}

/// The model of a task that has ended.
#[verifier::ext_equal]
pub struct TaskModel {
    pub index: int,
    pub result: Seq<char>,
    pub duration: Seq<char>,
    pub is_error: bool,
    pub delegate_data: Option<DelegateDataModel>,
}

/// A task that has ended: which call of the round it ran, what came of it, how long it took,
/// whether it failed, and what it has used and said where it was delegated.
#[derive(Debug)]
pub struct TaskDone {
    pub index: usize,
    pub result: String,
    pub duration: String,
    pub is_error: bool,
    pub delegate_data: Option<DelegateData>,
}

impl DeepView for TaskDone {
    type V = TaskModel;

    open spec fn deep_view(&self) -> TaskModel {
        TaskModel {
            index: self.index as int,
            result: self.result@,
            duration: self.duration@,
            is_error: self.is_error,
            delegate_data: self.delegate_data.deep_view(),
        }
    }
}

/// How a call is run: by a subagent, or by a tool of the session.
#[derive(Clone, Copy, PartialEq, Eq, Structural, Debug)]
pub enum ToolRoute {
    Delegate,
    Registry,
}

/// How a session runs a call: calls of the delegate tool go to a subagent where there are any.
pub open spec fn route(session: AgentModel, call: CallModel) -> ToolRoute {
    if call.name == delegate_tool_name() && session.subagents_state.subagents.len() > 0 {
        ToolRoute::Delegate
    } else {
        ToolRoute::Registry
    }
}

// ---------------------------------------------------------------------------------------------
// The state of a round

/// The model of a round.
#[verifier::ext_equal]
pub struct RoundModel {
    pub pending: Seq<PendingModel>,
    pub outstanding: Seq<bool>,
    pub deferred_errors: Seq<EventModel>,
    pub subagent_cost: Cost,
}

/// A round of tool calls: the calls, which of them have not ended yet, the failures that are yet
/// to be reported, and what subagents have cost.
#[derive(Debug)]
pub struct ToolRound {
    pub pending: Vec<PendingTool>,
    pub outstanding: Vec<bool>,
    pub deferred_errors: Vec<Event>,
    pub subagent_cost: Cost,
}

impl DeepView for ToolRound {
    type V = RoundModel;

    open spec fn deep_view(&self) -> RoundModel {
        RoundModel {
            pending: self.pending.deep_view(),
            outstanding: self.outstanding@,
            deferred_errors: self.deferred_errors.deep_view(),
            subagent_cost: self.subagent_cost,
        }
    }
}

impl ToolRound {
    /// It is known of each call whether it has ended.
    pub open spec fn wf(&self) -> bool {
        self.pending@.len() == self.outstanding@.len()
    }
}

/// A round in which no call has ended.
pub open spec fn begun_round(calls: Seq<CallModel>) -> RoundModel {
    RoundModel {
        pending: calls.map_values(
            |call: CallModel| PendingModel { call, result: seq![], duration: seq![] },
        ),
        outstanding: calls.map_values(|call: CallModel| true),
        deferred_errors: seq![],
        subagent_cost: Cost { bits: 0 },
    }
}

/// The round after a task has ended: its result stands with its call, and a failure is kept to be
/// reported. `cost` is what subagents have cost up to and with it.
pub open spec fn round_after(round: RoundModel, done: TaskModel, cost: Cost) -> RoundModel {
    let call = round.pending[done.index].call;
    RoundModel {
        pending: round.pending.update(
            done.index,
            PendingModel { call, result: done.result, duration: done.duration },
        ),
        outstanding: round.outstanding.update(done.index, false),
        deferred_errors: if done.is_error {
            round.deferred_errors.push(error_event(call, done.result, done.duration))
        } else {
            round.deferred_errors
        },
        subagent_cost: if done.delegate_data is Some {
            cost
        } else {
            round.subagent_cost
        },
    }
}

/// The session after a task has ended: what a delegated task has used is added to what the session
/// has used, and what was said in it is kept. `cost` is what the session has cost up to and with
/// it.
pub open spec fn session_after(session: AgentModel, done: TaskModel, cost: Cost) -> AgentModel {
    match done.delegate_data {
        None => session,
        Some(data) => AgentModel {
            sess: SessionModel {
                prompt_tokens: (session.sess.prompt_tokens + data.prompt_tokens) as i32,
                completion_tokens: (session.sess.completion_tokens + data.completion_tokens) as i32,
                cost,
                ..session.sess
            },
            subagents_state: SubagentsModel {
                subagent_turns: session.subagents_state.subagent_turns.push(
                    TurnModel {
                        msgs: data.msgs,
                        subagent: data.subagent_id,
                        tool_call_id: data.tool_call_id,
                    },
                ),
                ..session.subagents_state
            },
            ..session
        },
    }
}

/// Whether the tokens that a task has used can be added to those of the session.
pub open spec fn tokens_fit(sess: SessionModel, done: TaskModel) -> bool {
    done.delegate_data matches Some(data) ==> {
        &&& i32::MIN <= sess.prompt_tokens + data.prompt_tokens <= i32::MAX
        &&& i32::MIN <= sess.completion_tokens + data.completion_tokens <= i32::MAX
    }
}

/// The result of a call whose task came to no end of its own.
pub open spec fn task_failed() -> Seq<char> {
    "tool task failed"@
}

/// The calls of a round that is over. A call that has not ended has failed.
pub open spec fn settled(round: RoundModel) -> Seq<PendingModel> {
    Seq::new(
        round.pending.len(),
        |i: int|
            if round.outstanding[i] {
                PendingModel { result: task_failed(), ..round.pending[i] }
            } else {
                round.pending[i]
            },
    )
}

/// The events that those of the first `n` calls have failed that have not ended.
pub open spec fn unended_events(round: RoundModel, n: int) -> Seq<EventModel>
    decreases n,
{
    if n <= 0 {
        seq![]
    } else {
        let before = unended_events(round, n - 1);
        if round.outstanding[n - 1] {
            before.push(
                error_event(
                    round.pending[n - 1].call,
                    task_failed(),
                    round.pending[n - 1].duration,
                ),
            )
        } else {
            before
        }
    }
}

/// The events that close a round: what subagents have cost, where they have cost anything, and the
/// failures, first of the tasks that have ended, then of those that have not.
pub open spec fn closing_events(round: RoundModel) -> Seq<EventModel> {
    (if round.subagent_cost.positive() {
        seq![usage_event(cost_only(round.subagent_cost))]
    } else {
        seq![]
    }) + round.deferred_errors + unended_events(round, round.pending.len() as int)
}

/// Sums of costs that are made where costs are numbers: of the session and of the round, up to and
/// with the task that has ended.
#[derive(Clone, Copy, Debug)]
pub struct CostTotals {
    pub session: Cost,
    pub round: Cost,
}

impl AgentSession {
    fn route_of(&self, call: &StreamToolCall) -> (r: ToolRoute)
        ensures
            r == route(self.deep_view(), call.deep_view()),
    {
        if str_eq(call.name.as_str(), "delegate") && self.subagents_state.subagents.len() > 0 {
            ToolRoute::Delegate
        } else {
            ToolRoute::Registry
        }
    }

    /// Begins a round of tool calls: the events that the calls start, how each is to be run, and
    /// the round.
    pub fn execute_tools(&self, tool_calls: &Vec<StreamToolCall>) -> (r: (
        Vec<Event>,
        Vec<ToolRoute>,
        ToolRound,
    ))
        ensures
            r.0.deep_view() == tool_calls.deep_view().map_values(
                |call: CallModel| start_event(call),
            ),
            r.1@ == tool_calls.deep_view().map_values(
                |call: CallModel| route(self.deep_view(), call),
            ),
            r.2.wf(),
            r.2.deep_view() == begun_round(tool_calls.deep_view()),
    {
        let ghost calls = tool_calls.deep_view();
        let mut starts: Vec<Event> = Vec::new();
        let mut routes: Vec<ToolRoute> = Vec::new();
        let mut pending: Vec<PendingTool> = Vec::new();
        let mut outstanding: Vec<bool> = Vec::new();
        let mut i: usize = 0;
        while i < tool_calls.len()
            invariant
                i <= tool_calls@.len(),
                calls == tool_calls.deep_view(),
                starts@.len() == i,
                routes@.len() == i,
                pending@.len() == i,
                outstanding@.len() == i,
                forall|j: int|
                    0 <= j < i ==> (#[trigger] starts@[j]).deep_view() == start_event(calls[j]),
                forall|j: int|
                    0 <= j < i ==> #[trigger] routes@[j] == route(self.deep_view(), calls[j]),
                forall|j: int|
                    0 <= j < i ==> (#[trigger] pending@[j]).deep_view() == (PendingModel {
                        call: calls[j],
                        result: seq![],
                        duration: seq![],
                    }),
                forall|j: int| 0 <= j < i ==> #[trigger] outstanding@[j],
            decreases tool_calls@.len() - i,
        {
            let tc = &tool_calls[i];
            assert(calls[i as int] == tc.deep_view());
            starts.push(Event::tool_call_start(tc));
            routes.push(self.route_of(tc));
            pending.push(
                PendingTool { call: tc.clone(), result: String::new(), duration: String::new() },
            );
            outstanding.push(true);
            i = i + 1;
        }
        let round = ToolRound {
            pending,
            outstanding,
            deferred_errors: Vec::new(),
            subagent_cost: Cost::zero(),
        };
        proof {
            assert(starts.deep_view() =~= calls.map_values(|call: CallModel| start_event(call)));
            assert(routes@ =~= calls.map_values(
                |call: CallModel| route(self.deep_view(), call),
            ));
            assert(round.deep_view().pending =~= begun_round(calls).pending);
            assert(round.deep_view().outstanding =~= begun_round(calls).outstanding);
            assert(round.deep_view().deferred_errors =~= seq![]);
        }
        (starts, routes, round)
    }

    /// Takes in a task that has ended.
    pub fn task_joined(&mut self, round: &mut ToolRound, done: TaskDone, totals: CostTotals)
        requires
            old(round).wf(),
            done.index < old(round).pending@.len(),
            tokens_fit(old(self).deep_view().sess, done.deep_view()),
        ensures
            final(round).wf(),
            final(round).deep_view() == round_after(
                old(round).deep_view(),
                done.deep_view(),
                totals.round,
            ),
            old(self).wf() ==> final(self).wf(),
            final(self).deep_view() == session_after(
                old(self).deep_view(),
                done.deep_view(),
                totals.session,
            ),
    {
        let i: usize = done.index;
        let ghost before = round.deep_view();
        let ghost session = self.deep_view();
        let ghost model = done.deep_view();
        let call = round.pending[i].call.clone();
        assert(before.pending[i as int] == round.pending@[i as int].deep_view());
        round.outstanding.set(i, false);
        if done.is_error {
            let ghost errors = round.deferred_errors.deep_view();
            round.deferred_errors.push(
                Event::tool_error_ev(&call, done.result.as_str(), done.duration.as_str()),
            );
            assert(round.deferred_errors.deep_view() =~= errors.push(
                error_event(call.deep_view(), done.result@, done.duration@),
            ));
        }
        round.pending.set(i, PendingTool { call, result: done.result, duration: done.duration });
        assert(round.deep_view().pending =~= round_after(before, model, totals.round).pending);
        match done.delegate_data {
            None => {},
            Some(data) => {
                self.sess.prompt_tokens = self.sess.prompt_tokens + data.prompt_tokens;
                self.sess.completion_tokens = self.sess.completion_tokens + data.completion_tokens;
                self.sess.cost = totals.session;
                round.subagent_cost = totals.round;
                let ghost turns = self.subagents_state.subagent_turns.deep_view();
                self.subagents_state.subagent_turns.push(
                    SubagentTurn {
                        msgs: data.msgs,
                        subagent: data.subagent_id,
                        tool_call_id: data.tool_call_id,
                    },
                );
                assert(self.subagents_state.subagent_turns.deep_view() =~= turns.push(
                    TurnModel {
                        msgs: data.msgs.deep_view(),
                        subagent: data.subagent_id@,
                        tool_call_id: data.tool_call_id@,
                    },
                ));
            },
        }
    }
}

impl ToolRound {
    /// Ends the round: the calls with their results, and the events that close the round.
    pub fn finish(self) -> (r: (Vec<PendingTool>, Vec<Event>))
        requires
            self.wf(),
        ensures
            r.0.deep_view() == settled(self.deep_view()),
            r.1.deep_view() == closing_events(self.deep_view()),
    {
        let ghost model = self.deep_view();
        let mut events: Vec<Event> = Vec::new();
        if self.subagent_cost.is_positive() {
            events.push(Event::usage_ev(Usage::of_cost(self.subagent_cost)));
        }
        let ghost first = events.deep_view();
        assert(first =~= if self.subagent_cost.positive() {
            seq![usage_event(cost_only(self.subagent_cost))]
        } else {
            seq![]
        });
        let mut errors = self.deferred_errors;
        events.append(&mut errors);
        let ghost opening = events.deep_view();
        assert(opening =~= first + model.deferred_errors);
        let outstanding = self.outstanding;
        let mut pending = self.pending;
        let mut i: usize = 0;
        assert(opening =~= opening + unended_events(model, 0));
        while i < pending.len()
            invariant
                i <= pending@.len() == outstanding@.len() == model.pending.len(),
                outstanding@ == model.outstanding,
                forall|j: int|
                    0 <= j < i ==> (#[trigger] pending@[j]).deep_view() == settled(model)[j],
                forall|j: int|
                    i <= j < pending@.len() ==> (#[trigger] pending@[j]).deep_view()
                        == model.pending[j],
                events.deep_view() == opening + unended_events(model, i as int),
            decreases pending@.len() - i,
        {
            if outstanding[i] {
                let call = pending[i].call.clone();
                let duration = pending[i].duration.clone();
                let ghost before = events.deep_view();
                events.push(Event::tool_error_ev(&call, "tool task failed", duration.as_str()));
                assert(events.deep_view() =~= before.push(
                    error_event(call.deep_view(), task_failed(), duration@),
                ));
                pending.set(
                    i,
                    PendingTool { call, result: "tool task failed".to_owned(), duration },
                );
            }
            assert(events.deep_view() =~= opening + unended_events(model, i + 1));
            i = i + 1;
        }
        assert(pending.deep_view() =~= settled(model));
        assert(events.deep_view() =~= closing_events(model));
        (pending, events)
    }
}

// ---------------------------------------------------------------------------------------------
// Running a tool of the session

/// What came of a tool.
#[derive(Debug)]
pub enum ToolOutcome {
    /// The arguments are no JSON, for this reason.
    InvalidArgs(String),
    /// The tool has returned this.
    Finished(String),
    /// The tool has failed, for this reason.
    Failed(String),
    /// The tool took too long.
    TimedOut,
}

/// The model of what came of a tool.
#[verifier::ext_equal]
pub enum OutcomeModel {
    InvalidArgs(Seq<char>),
    Finished(Seq<char>),
    Failed(Seq<char>),
    TimedOut,
}

impl DeepView for ToolOutcome {
    type V = OutcomeModel;

    open spec fn deep_view(&self) -> OutcomeModel {
        match self {
            ToolOutcome::InvalidArgs(error) => OutcomeModel::InvalidArgs(error@),
            ToolOutcome::Finished(result) => OutcomeModel::Finished(result@),
            ToolOutcome::Failed(error) => OutcomeModel::Failed(error@),
            ToolOutcome::TimedOut => OutcomeModel::TimedOut,
        }
    }
}

/// What is to be done to run a call with a tool of the session.
pub enum RegistryTask {
    /// Nothing: there is no such tool, and the task has ended.
    NotFound(TaskDone),
    /// Nothing: the arguments are no JSON.
    Refused(ToolOutcome),
    /// The tool is to be run on these arguments.
    Run(serde_json::Value),
}

/// A task that has failed with a message.
pub open spec fn failed_task(index: int, message: Seq<char>, duration: Seq<char>) -> TaskModel {
    TaskModel { index, result: message, duration, is_error: true, delegate_data: None }
}

/// The message that there is no such tool.
pub open spec fn not_found_message(name: Seq<char>) -> Seq<char> {
    "Tool "@ + name + " not found"@
}

/// What the model is told of what came of a tool.
pub open spec fn outcome_message(name: Seq<char>, outcome: OutcomeModel) -> Seq<char> {
    match outcome {
        OutcomeModel::InvalidArgs(error) => "Tool "@ + name + " invalid args: "@ + error,
        OutcomeModel::Finished(result) => result,
        OutcomeModel::Failed(error) => "Tool "@ + name + " error: "@ + error,
        OutcomeModel::TimedOut => "Tool "@ + name + " timed out after "@ + decimal(
            TOOL_TIMEOUT_SECS as nat,
        ) + "s"@,
    }
}

/// The end of a task whose tool came to this outcome: all but a result of the tool is a failure.
pub open spec fn outcome_task(
    index: int,
    call: CallModel,
    outcome: OutcomeModel,
    duration: Seq<char>,
) -> TaskModel {
    TaskModel {
        index,
        result: outcome_message(call.name, outcome),
        duration,
        is_error: !(outcome is Finished),
        delegate_data: None,
    }
}

/// Whether `task` is what is to be done for the call `call`, whose arguments parse as `parsed`.
pub open spec fn registry_task(
    session: AgentModel,
    index: int,
    call: CallModel,
    parsed: Result<serde_json::Value, Seq<char>>,
    task: RegistryTask,
) -> bool {
    if !tool_names(session.tools).contains(call.name) {
        task matches RegistryTask::NotFound(done) && done.deep_view() == failed_task(
            index,
            not_found_message(call.name),
            seq![],
        )
    } else {
        match parsed {
            Err(error) => task matches RegistryTask::Refused(outcome) && outcome.deep_view()
                == OutcomeModel::InvalidArgs(error),
            Ok(value) => task == RegistryTask::Run(value),
        }
    }
}

fn tool_message(name: &str, what: &str) -> (r: String)
    ensures
        r@ == "Tool "@ + name@ + what@,
{
    let mut r = "Tool ".to_owned();
    r.append(name);
    r.append(what);
    r
}

impl AgentSession {
    /// What is to be done to run a call with a tool of the session.
    pub fn spawn_registry_task(&self, i: usize, tc: &StreamToolCall) -> (r: RegistryTask)
        ensures
            registry_task(
                self.deep_view(),
                i as int,
                tc.deep_view(),
                json_parsed(tc.arguments@),
                r,
            ),
    {
        self.plan_registry_task(i, tc, parse_json(tc.arguments.as_str()))
    }

    /// What is to be done to run a call, whose arguments parse as `parsed`, with a tool of the
    /// session.
    pub fn plan_registry_task(
        &self,
        i: usize,
        tc: &StreamToolCall,
        parsed: Result<serde_json::Value, String>,
    ) -> (r: RegistryTask)
        ensures
            registry_task(
                self.deep_view(),
                i as int,
                tc.deep_view(),
                match parsed {
                    Ok(value) => Ok(value),
                    Err(error) => Err(error@),
                },
                r,
            ),
    {
        if !self.tools.contains(tc.name.as_str()) {
            return RegistryTask::NotFound(
                TaskDone {
                    index: i,
                    result: tool_message(tc.name.as_str(), " not found"),
                    duration: String::new(),
                    is_error: true,
                    delegate_data: None,
                },
            );
        }
        match parsed {
            Err(error) => RegistryTask::Refused(ToolOutcome::InvalidArgs(error)),
            Ok(value) => RegistryTask::Run(value),
        }
    }
}

/// The end of a task whose tool came to this outcome, and the event that reports a result.
pub fn tool_done(i: usize, tc: &StreamToolCall, outcome: ToolOutcome, duration: String) -> (r: (
    Option<Event>,
    TaskDone,
))
    ensures
        r.1.deep_view() == outcome_task(
            i as int,
            tc.deep_view(),
            outcome.deep_view(),
            duration@,
        ),
        r.1.index == i,
        r.1.duration@ == duration@,
        match outcome {
            ToolOutcome::Finished(result) => r.1.result@ == result@ && !r.1.is_error,
            _ => r.1.is_error,
        },
        match outcome.deep_view() {
            OutcomeModel::Finished(result) => r.0 matches Some(event) && event.deep_view()
                == result_event(tc.deep_view(), result, duration@),
            _ => r.0 is None,
        },
{
    let name = tc.name.as_str();
    let (event, result, is_error) = match outcome {
        ToolOutcome::InvalidArgs(error) => {
            let mut text = tool_message(name, " invalid args: ");
            text.append(error.as_str());
            (None, text, true)
        },
        ToolOutcome::Finished(result) => (
            Some(Event::tool_result_ev(tc, result.as_str(), duration.as_str())),
            result,
            false,
        ),
        ToolOutcome::Failed(error) => {
            let mut text = tool_message(name, " error: ");
            text.append(error.as_str());
            (None, text, true)
        },
        ToolOutcome::TimedOut => {
            let mut text = tool_message(name, " timed out after ");
            text.append(decimal_string(TOOL_TIMEOUT_SECS).as_str());
            text.append("s");
            (None, text, true)
        },
    };
    (event, TaskDone { index: i, result, duration, is_error, delegate_data: None })
}

// ---------------------------------------------------------------------------------------------
// Writing a round into the conversation

/// The calls of a round.
pub open spec fn calls_of(pending: Seq<PendingModel>) -> Seq<CallModel> {
    pending.map_values(|tool: PendingModel| tool.call)
}

/// The message in which the model made the calls of a round.
pub open spec fn calling_message(
    pending: Seq<PendingModel>,
    reasoning: Seq<char>,
    details: Seq<Seq<char>>,
) -> MessageModel {
    MessageModel {
        role: Role::Assistant,
        content: seq![],
        reasoning_content: reasoning,
        reasoning_details: details,
        tool_calls: calls_of(pending),
        tool_call_id: seq![],
        name: seq![],
        tool_duration: seq![],
    }
}

/// The message that answers a call. An empty result is spelled out.
pub open spec fn answering_message(tool: PendingModel) -> MessageModel {
    MessageModel {
        role: Role::Tool,
        content: if tool.result.len() == 0 {
            "(no output)"@
        } else {
            tool.result
        },
        reasoning_content: seq![],
        reasoning_details: seq![],
        tool_calls: seq![],
        tool_call_id: tool.call.id,
        name: tool.call.name,
        tool_duration: tool.duration,
    }
}

/// The messages of a round: the one with the calls, and the answer to each in their order.
pub open spec fn round_messages(
    pending: Seq<PendingModel>,
    reasoning: Seq<char>,
    details: Seq<Seq<char>>,
) -> Seq<MessageModel> {
    seq![calling_message(pending, reasoning, details)] + pending.map_values(
        |tool: PendingModel| answering_message(tool),
    )
}

fn answer(tool: &PendingTool) -> (r: Message)
    ensures
        r.deep_view() == answering_message(tool.deep_view()),
{
    let content = if tool.result.as_str().is_empty() {
        "(no output)".to_owned()
    } else {
        tool.result.clone()
    };
    let r = Message {
        role: Role::Tool,
        content,
        reasoning_content: String::new(),
        reasoning_details: Vec::new(),
        tool_calls: Vec::new(),
        tool_call_id: tool.call.id.clone(),
        name: tool.call.name.clone(),
        tool_duration: tool.duration.clone(),
    };
    assert(r.reasoning_details.deep_view() =~= seq![]);
    assert(r.tool_calls.deep_view() =~= seq![]);
    r
}

impl AgentSession {
    /// Writes the calls of a round and their results into the conversation.
    pub fn append_tool_messages(
        &mut self,
        pending: &Vec<PendingTool>,
        reasoning: &str,
        details: &Vec<ReasoningDetail>,
    )
        ensures
            old(self).wf() ==> final(self).wf(),
            final(self).deep_view() == (AgentModel {
                working_messages: old(self).deep_view().working_messages + round_messages(
                    pending.deep_view(),
                    reasoning@,
                    details.deep_view(),
                ),
                ..old(self).deep_view()
            }),
    {
        let ghost session = self.deep_view();
        let ghost model = pending.deep_view();
        let ghost whole = round_messages(model, reasoning@, details.deep_view());
        let mut tool_calls: Vec<ToolCall> = Vec::new();
        let mut i: usize = 0;
        while i < pending.len()
            invariant
                i <= pending@.len(),
                model == pending.deep_view(),
                tool_calls@.len() == i,
                forall|j: int|
                    0 <= j < i ==> (#[trigger] tool_calls@[j]).deep_view() == model[j].call,
            decreases pending@.len() - i,
        {
            assert(model[i as int] == pending@[i as int].deep_view());
            tool_calls.push(pending[i].call.to_tool_call());
            i = i + 1;
        }
        assert(tool_calls.deep_view() =~= calls_of(model));
        let reasoning_details = details.clone();
        assert(reasoning_details.deep_view() =~= details.deep_view());
        self.working_messages.push(
            Message {
                role: Role::Assistant,
                content: String::new(),
                reasoning_content: reasoning.to_owned(),
                reasoning_details,
                tool_calls,
                tool_call_id: String::new(),
                name: String::new(),
                tool_duration: String::new(),
            },
        );
        assert(self.working_messages.deep_view() =~= session.working_messages + whole.take(1));
        let mut k: usize = 0;
        while k < pending.len()
            invariant
                k <= pending@.len(),
                model == pending.deep_view(),
                whole == round_messages(model, reasoning@, details.deep_view()),
                self.deep_view() == (AgentModel {
                    working_messages: session.working_messages + whole.take(k + 1),
                    ..session
                }),
            decreases pending@.len() - k,
        {
            assert(model[k as int] == pending@[k as int].deep_view());
            let ghost before = self.working_messages.deep_view();
            self.working_messages.push(answer(&pending[k]));
            proof {
                assert(whole[k + 1] == answering_message(model[k as int]));
                assert(self.working_messages.deep_view() =~= before.push(whole[k + 1]));
                assert(before.push(whole[k + 1]) =~= session.working_messages + whole.take(
                    k + 2,
                ));
            }
            k = k + 1;
        }
        assert(whole.take(k + 1) =~= whole);
    }
}

// ---------------------------------------------------------------------------------------------
// Laws

/// A task that has ended, and the sums of costs up to and with it.
pub struct EndedTask {
    pub done: TaskModel,
    pub totals: CostTotals,
}

/// Whether these tasks are of the calls of a round.
pub open spec fn of_round(ended: Seq<EndedTask>, calls: Seq<CallModel>) -> bool {
    forall|k: int| 0 <= k < ended.len() ==> 0 <= (#[trigger] ended[k]).done.index < calls.len()
}

/// The round of these calls after these tasks have ended, one after another.
pub open spec fn round_run(calls: Seq<CallModel>, ended: Seq<EndedTask>) -> RoundModel
    decreases ended.len(),
{
    if ended.len() == 0 {
        begun_round(calls)
    } else {
        round_after(
            round_run(calls, ended.drop_last()),
            ended.last().done,
            ended.last().totals.round,
        )
    }
}

/// The session after these tasks have ended, one after another.
pub open spec fn session_run(session: AgentModel, ended: Seq<EndedTask>) -> AgentModel
    decreases ended.len(),
{
    if ended.len() == 0 {
        session
    } else {
        session_after(
            session_run(session, ended.drop_last()),
            ended.last().done,
            ended.last().totals.session,
        )
    }
}

/// Whether no task of the call `i` is among these.
pub open spec fn unended(ended: Seq<EndedTask>, i: int) -> bool {
    forall|k: int| 0 <= k < ended.len() ==> (#[trigger] ended[k]).done.index != i
}

/// Whether the task `k` is the last of these that is of its call.
pub open spec fn last_of_its_call(ended: Seq<EndedTask>, k: int) -> bool {
    &&& 0 <= k < ended.len()
    &&& forall|j: int|
        k < j < ended.len() ==> (#[trigger] ended[j]).done.index != ended[k].done.index
}

proof fn prefix_of_round(ended: Seq<EndedTask>, calls: Seq<CallModel>)
    requires
        of_round(ended, calls),
        ended.len() > 0,
    ensures
        of_round(ended.drop_last(), calls),
        0 <= ended.last().done.index < calls.len(),
{
    assert(ended.last() == ended[ended.len() - 1]);
    assert forall|k: int| 0 <= k < ended.drop_last().len() implies 0 <= (
    #[trigger] ended.drop_last()[k]).done.index < calls.len() by {
        assert(ended.drop_last()[k] == ended[k]);
    }
}

/// Whatever ends, a round keeps its calls, in their order.
pub proof fn round_keeps_its_calls(calls: Seq<CallModel>, ended: Seq<EndedTask>)
    requires
        of_round(ended, calls),
    ensures
        round_run(calls, ended).pending.len() == calls.len(),
        round_run(calls, ended).outstanding.len() == calls.len(),
        calls_of(round_run(calls, ended).pending) == calls,
        calls_of(settled(round_run(calls, ended))) == calls,
    decreases ended.len(),
{
    let round = round_run(calls, ended);
    if ended.len() > 0 {
        prefix_of_round(ended, calls);
        round_keeps_its_calls(calls, ended.drop_last());
        let before = round_run(calls, ended.drop_last());
        assert forall|i: int| 0 <= i < calls.len() implies (#[trigger] round.pending[i]).call
            == calls[i] by {
            assert(calls_of(before.pending)[i] == before.pending[i].call);
        }
    }
    assert(calls_of(round.pending) =~= calls);
    assert forall|i: int| 0 <= i < calls.len() implies (#[trigger] settled(round)[i]).call
        == calls[i] by {
        assert(calls_of(round.pending)[i] == round.pending[i].call);
    }
    assert(calls_of(settled(round)) =~= calls);
}

/// The result of a call is that of its task, the last one if there were several.
pub proof fn ended_call_has_its_result(calls: Seq<CallModel>, ended: Seq<EndedTask>, k: int)
    requires
        of_round(ended, calls),
        last_of_its_call(ended, k),
    ensures
        settled(round_run(calls, ended))[ended[k].done.index] == (PendingModel {
            call: calls[ended[k].done.index],
            result: ended[k].done.result,
            duration: ended[k].done.duration,
        }),
        !round_run(calls, ended).outstanding[ended[k].done.index],
    decreases ended.len(),
{
    let i = ended[k].done.index;
    let init = ended.drop_last();
    prefix_of_round(ended, calls);
    round_keeps_its_calls(calls, ended);
    round_keeps_its_calls(calls, init);
    assert(0 <= i < calls.len());
    if k < ended.len() - 1 {
        assert(ended.last() == ended[ended.len() - 1]);
        assert(init[k] == ended[k]);
        assert forall|j: int| k < j < init.len() implies (#[trigger] init[j]).done.index
            != init[k].done.index by {
            assert(init[j] == ended[j]);
        }
        ended_call_has_its_result(calls, init, k);
    } else {
        assert(calls_of(round_run(calls, init).pending)[i] == calls[i]);
    }
}

/// A call of which no task has ended has failed.
pub proof fn unended_call_has_failed(calls: Seq<CallModel>, ended: Seq<EndedTask>, i: int)
    requires
        of_round(ended, calls),
        0 <= i < calls.len(),
        unended(ended, i),
    ensures
        settled(round_run(calls, ended))[i] == (PendingModel {
            call: calls[i],
            result: "tool task failed"@,
            duration: seq![],
        }),
        round_run(calls, ended).outstanding[i],
        round_run(calls, ended).pending[i].duration == Seq::<char>::empty(),
    decreases ended.len(),
{
    round_keeps_its_calls(calls, ended);
    if ended.len() > 0 {
        let init = ended.drop_last();
        prefix_of_round(ended, calls);
        round_keeps_its_calls(calls, init);
        assert(ended.last() == ended[ended.len() - 1]);
        assert forall|k: int| 0 <= k < init.len() implies (#[trigger] init[k]).done.index != i by {
            assert(init[k] == ended[k]);
        }
        unended_call_has_failed(calls, init, i);
    }
}

/// Whether no two of these tasks are of the same call.
pub open spec fn one_per_call(ended: Seq<EndedTask>) -> bool {
    forall|j: int, k: int|
        0 <= j < k < ended.len() ==> (#[trigger] ended[j]).done.index != (
        #[trigger] ended[k]).done.index
}

proof fn task_in_any_order(
    calls: Seq<CallModel>,
    a: Seq<EndedTask>,
    b: Seq<EndedTask>,
    i: int,
)
    requires
        of_round(a, calls),
        of_round(b, calls),
        one_per_call(a),
        one_per_call(b),
        a.to_multiset() == b.to_multiset(),
        0 <= i < calls.len(),
        !unended(a, i),
    ensures
        settled(round_run(calls, a))[i] == settled(round_run(calls, b))[i],
        !unended(b, i),
{
    let j = choose|j: int| 0 <= j < a.len() && (#[trigger] a[j]).done.index == i;
    to_multiset_contains(a, a[j]);
    to_multiset_contains(b, a[j]);
    assert(a.contains(a[j]));
    let k = choose|k: int| 0 <= k < b.len() && b[k] == a[j];
    assert(b[k].done.index == i);
    ended_call_has_its_result(calls, a, j);
    ended_call_has_its_result(calls, b, k);
}

/// What comes of the calls of a round does not depend on the order in which their tasks end.
pub proof fn results_do_not_depend_on_order(
    calls: Seq<CallModel>,
    a: Seq<EndedTask>,
    b: Seq<EndedTask>,
)
    requires
        of_round(a, calls),
        of_round(b, calls),
        one_per_call(a),
        one_per_call(b),
        a.to_multiset() == b.to_multiset(),
    ensures
        settled(round_run(calls, a)) == settled(round_run(calls, b)),
{
    round_keeps_its_calls(calls, a);
    round_keeps_its_calls(calls, b);
    assert forall|i: int| 0 <= i < calls.len() implies settled(round_run(calls, a))[i] == settled(
        round_run(calls, b),
    )[i] by {
        if !unended(a, i) {
            task_in_any_order(calls, a, b, i);
        } else if !unended(b, i) {
            task_in_any_order(calls, b, a, i);
        } else {
            unended_call_has_failed(calls, a, i);
            unended_call_has_failed(calls, b, i);
        }
    }
    assert(settled(round_run(calls, a)) =~= settled(round_run(calls, b)));
}

/// The event that a task has failed.
pub open spec fn failure_of(calls: Seq<CallModel>, task: EndedTask) -> EventModel {
    error_event(calls[task.done.index], task.done.result, task.done.duration)
}

/// Whether an event reports the failure of one of these tasks.
pub open spec fn reports_failure(
    calls: Seq<CallModel>,
    ended: Seq<EndedTask>,
    event: EventModel,
) -> bool {
    exists|k: int|
        0 <= k < ended.len() && (#[trigger] ended[k]).done.is_error && event == failure_of(
            calls,
            ended[k],
        )
}

/// Whether an event reports that one of the first `n` calls has not ended.
spec fn reports_unended(round: RoundModel, n: int, event: EventModel) -> bool {
    exists|i: int|
        0 <= i < n && #[trigger] round.outstanding[i] && event == error_event(
            round.pending[i].call,
            task_failed(),
            round.pending[i].duration,
        )
}

proof fn deferred_errors_are_failures(calls: Seq<CallModel>, ended: Seq<EndedTask>)
    requires
        of_round(ended, calls),
    ensures
        forall|k: int|
            0 <= k < ended.len() && (#[trigger] ended[k]).done.is_error ==> round_run(
                calls,
                ended,
            ).deferred_errors.contains(failure_of(calls, ended[k])),
        forall|e: int|
            0 <= e < round_run(calls, ended).deferred_errors.len() ==> reports_failure(
                calls,
                ended,
                #[trigger] round_run(calls, ended).deferred_errors[e],
            ),
    decreases ended.len(),
{
    if ended.len() > 0 {
        let init = ended.drop_last();
        let last = ended.last();
        prefix_of_round(ended, calls);
        round_keeps_its_calls(calls, init);
        deferred_errors_are_failures(calls, init);
        let old_errors = round_run(calls, init).deferred_errors;
        let errors = round_run(calls, ended).deferred_errors;
        assert(calls_of(round_run(calls, init).pending)[last.done.index]
            == calls[last.done.index]);
        assert(errors == if last.done.is_error {
            old_errors.push(failure_of(calls, last))
        } else {
            old_errors
        });
        assert forall|k: int|
            0 <= k < ended.len() && (#[trigger] ended[k]).done.is_error implies errors.contains(
            failure_of(calls, ended[k]),
        ) by {
            if k < init.len() {
                assert(init[k] == ended[k]);
                let e = choose|e: int|
                    0 <= e < old_errors.len() && old_errors[e] == failure_of(calls, ended[k]);
                assert(errors[e] == failure_of(calls, ended[k]));
            } else {
                assert(errors[errors.len() - 1] == failure_of(calls, ended[k]));
            }
        }
        assert forall|e: int| 0 <= e < errors.len() implies reports_failure(
            calls,
            ended,
            #[trigger] errors[e],
        ) by {
            if e < old_errors.len() {
                assert(reports_failure(calls, init, old_errors[e]));
                let k = choose|k: int|
                    0 <= k < init.len() && (#[trigger] init[k]).done.is_error && old_errors[e]
                        == failure_of(calls, init[k]);
                assert(ended[k] == init[k]);
            } else {
                assert(ended[ended.len() - 1] == last);
            }
        }
    }
}

proof fn unended_events_are_complete(round: RoundModel, n: int)
    requires
        0 <= n <= round.pending.len(),
    ensures
        forall|i: int|
            0 <= i < n && #[trigger] round.outstanding[i] ==> unended_events(round, n).contains(
                error_event(round.pending[i].call, task_failed(), round.pending[i].duration),
            ),
        forall|e: int|
            0 <= e < unended_events(round, n).len() ==> reports_unended(
                round,
                n,
                #[trigger] unended_events(round, n)[e],
            ),
    decreases n,
{
    if n > 0 {
        unended_events_are_complete(round, n - 1);
        let before = unended_events(round, n - 1);
        let after = unended_events(round, n);
        assert forall|i: int| 0 <= i < n && #[trigger] round.outstanding[i] implies after.contains(
            error_event(round.pending[i].call, task_failed(), round.pending[i].duration),
        ) by {
            let event = error_event(
                round.pending[i].call,
                task_failed(),
                round.pending[i].duration,
            );
            if i < n - 1 {
                let e = choose|e: int| 0 <= e < before.len() && before[e] == event;
                assert(after[e] == event);
            } else {
                assert(after[after.len() - 1] == event);
            }
        }
        assert forall|e: int| 0 <= e < after.len() implies reports_unended(
            round,
            n,
            #[trigger] after[e],
        ) by {
            if e < before.len() {
                assert(reports_unended(round, n - 1, before[e]));
                let i = choose|i: int|
                    0 <= i < n - 1 && #[trigger] round.outstanding[i] && before[e] == error_event(
                        round.pending[i].call,
                        task_failed(),
                        round.pending[i].duration,
                    );
                assert(round.outstanding[i]);
            } else {
                assert(round.outstanding[n - 1]);
            }
        }
    }
}

/// Every failure is reported when a round closes: of the tasks that have ended with one, and of
/// the calls of which no task has ended.
pub proof fn every_failure_is_reported(calls: Seq<CallModel>, ended: Seq<EndedTask>)
    requires
        of_round(ended, calls),
    ensures
        forall|k: int|
            0 <= k < ended.len() && (#[trigger] ended[k]).done.is_error ==> closing_events(
                round_run(calls, ended),
            ).contains(failure_of(calls, ended[k])),
        forall|i: int|
            0 <= i < calls.len() && #[trigger] unended(ended, i) ==> closing_events(
                round_run(calls, ended),
            ).contains(error_event(calls[i], task_failed(), seq![])),
{
    let round = round_run(calls, ended);
    let closing = closing_events(round);
    round_keeps_its_calls(calls, ended);
    deferred_errors_are_failures(calls, ended);
    unended_events_are_complete(round, calls.len() as int);
    let errors = round.deferred_errors;
    let rest = unended_events(round, calls.len() as int);
    let first = closing.len() - errors.len() - rest.len();
    assert forall|k: int|
        0 <= k < ended.len() && (#[trigger] ended[k]).done.is_error implies closing.contains(
        failure_of(calls, ended[k]),
    ) by {
        let e = choose|e: int| 0 <= e < errors.len() && errors[e] == failure_of(calls, ended[k]);
        assert(closing[first + e] == errors[e]);
    }
    assert forall|i: int| 0 <= i < calls.len() && #[trigger] unended(
        ended,
        i,
    ) implies closing.contains(error_event(calls[i], task_failed(), seq![])) by {
        unended_call_has_failed(calls, ended, i);
        assert(calls_of(round.pending)[i] == calls[i]);
        let event = error_event(calls[i], task_failed(), seq![]);
        assert(round.outstanding[i]);
        let e = choose|e: int| 0 <= e < rest.len() && rest[e] == event;
        assert(closing[first + errors.len() + e] == rest[e]);
    }
}

/// Nothing but failures, and what subagents have cost, is reported when a round closes.
pub proof fn only_failures_are_reported(calls: Seq<CallModel>, ended: Seq<EndedTask>, e: int)
    requires
        of_round(ended, calls),
        0 <= e < closing_events(round_run(calls, ended)).len(),
    ensures
        ({
            let event = closing_events(round_run(calls, ended))[e];
            let cost = round_run(calls, ended).subagent_cost;
            ||| e == 0 && cost.positive() && event == usage_event(cost_only(cost))
            ||| reports_failure(calls, ended, event)
            ||| exists|i: int|
                0 <= i < calls.len() && #[trigger] unended(ended, i) && event == error_event(
                    calls[i],
                    task_failed(),
                    seq![],
                )
        }),
{
    let round = round_run(calls, ended);
    let closing = closing_events(round);
    let event = closing[e];
    round_keeps_its_calls(calls, ended);
    deferred_errors_are_failures(calls, ended);
    unended_events_are_complete(round, calls.len() as int);
    let errors = round.deferred_errors;
    let rest = unended_events(round, calls.len() as int);
    let first = closing.len() - errors.len() - rest.len();
    if e >= first {
        if e < first + errors.len() {
            assert(event == errors[e - first]);
        } else {
            let r = e - first - errors.len();
            assert(event == rest[r]);
            assert(reports_unended(round, calls.len() as int, rest[r]));
            let i = choose|i: int|
                0 <= i < calls.len() && #[trigger] round.outstanding[i] && rest[r] == error_event(
                    round.pending[i].call,
                    task_failed(),
                    round.pending[i].duration,
                );
            assert(unended(ended, i)) by {
                if !unended(ended, i) {
                    let k = last_task_of(ended, i);
                    ended_call_has_its_result(calls, ended, k);
                }
            }
            unended_call_has_failed(calls, ended, i);
            assert(calls_of(round.pending)[i] == calls[i]);
        }
    }
}

proof fn last_task_of(ended: Seq<EndedTask>, i: int) -> (k: int)
    requires
        !unended(ended, i),
    ensures
        last_of_its_call(ended, k),
        ended[k].done.index == i,
    decreases ended.len(),
{
    let j = choose|j: int| 0 <= j < ended.len() && (#[trigger] ended[j]).done.index == i;
    if ended[ended.len() - 1].done.index == i {
        ended.len() - 1
    } else {
        let init = ended.drop_last();
        assert(init[j] == ended[j]);
        let k = last_task_of(init, i);
        assert(ended[k] == init[k]);
        assert forall|x: int| k < x < ended.len() implies (#[trigger] ended[x]).done.index
            != ended[k].done.index by {
            if x < init.len() {
                assert(init[x] == ended[x]);
            }
        }
        k
    }
}

/// The prompt tokens that delegated tasks among these have used.
pub open spec fn prompt_tokens_of(ended: Seq<EndedTask>) -> int
    decreases ended.len(),
{
    if ended.len() == 0 {
        0
    } else {
        prompt_tokens_of(ended.drop_last()) + match ended.last().done.delegate_data {
            Some(data) => data.prompt_tokens as int,
            None => 0,
        }
    }
}

/// The completion tokens that delegated tasks among these have used.
pub open spec fn completion_tokens_of(ended: Seq<EndedTask>) -> int
    decreases ended.len(),
{
    if ended.len() == 0 {
        0
    } else {
        completion_tokens_of(ended.drop_last()) + match ended.last().done.delegate_data {
            Some(data) => data.completion_tokens as int,
            None => 0,
        }
    }
}

/// What was said in the delegated tasks among these.
pub open spec fn turns_of(ended: Seq<EndedTask>) -> Seq<TurnModel>
    decreases ended.len(),
{
    if ended.len() == 0 {
        seq![]
    } else {
        let before = turns_of(ended.drop_last());
        match ended.last().done.delegate_data {
            Some(data) => before.push(
                TurnModel {
                    msgs: data.msgs,
                    subagent: data.subagent_id,
                    tool_call_id: data.tool_call_id,
                },
            ),
            None => before,
        }
    }
}

/// Whether the tokens of these tasks can be added, one after another, to those of the session.
pub open spec fn all_tokens_fit(session: AgentModel, ended: Seq<EndedTask>) -> bool
    decreases ended.len(),
{
    ended.len() == 0 || {
        &&& all_tokens_fit(session, ended.drop_last())
        &&& tokens_fit(session_run(session, ended.drop_last()).sess, ended.last().done)
    }
}

/// A round adds to its session what its delegated tasks have used and said, in the order in which
/// they have ended, and leaves its conversation, its tools and its subagents as they were.
pub proof fn delegated_work_is_added_up(session: AgentModel, ended: Seq<EndedTask>)
    requires
        all_tokens_fit(session, ended),
    ensures
        ({
            let after = session_run(session, ended);
            &&& after.sess.prompt_tokens == session.sess.prompt_tokens + prompt_tokens_of(ended)
            &&& after.sess.completion_tokens == session.sess.completion_tokens
                + completion_tokens_of(ended)
            &&& after.subagents_state.subagent_turns == session.subagents_state.subagent_turns
                + turns_of(ended)
            &&& after == (AgentModel {
                sess: SessionModel {
                    prompt_tokens: after.sess.prompt_tokens,
                    completion_tokens: after.sess.completion_tokens,
                    cost: after.sess.cost,
                    ..session.sess
                },
                subagents_state: SubagentsModel {
                    subagent_turns: after.subagents_state.subagent_turns,
                    ..session.subagents_state
                },
                ..session
            })
        }),
    decreases ended.len(),
{
    if ended.len() == 0 {
        assert(session.subagents_state.subagent_turns + turns_of(ended)
            =~= session.subagents_state.subagent_turns);
    } else {
        let init = ended.drop_last();
        delegated_work_is_added_up(session, init);
        assert(session_run(session, ended).subagents_state.subagent_turns
            =~= session.subagents_state.subagent_turns + turns_of(ended));
    }
}

/// Every call that stands in the conversation is answered: right after the message with the calls
/// follow as many answers, each with the identity and the name of its call, and none is empty.
pub proof fn every_call_is_answered(
    pending: Seq<PendingModel>,
    reasoning: Seq<char>,
    details: Seq<Seq<char>>,
)
    ensures
        ({
            let messages = round_messages(pending, reasoning, details);
            let calls = messages[0].tool_calls;
            &&& messages.len() == 1 + calls.len()
            &&& messages[0].role == Role::Assistant
            &&& calls == calls_of(pending)
            &&& forall|i: int|
                0 <= i < calls.len() ==> {
                    let message = #[trigger] messages[1 + i];
                    &&& message.role == Role::Tool
                    &&& message.tool_call_id == calls[i].id
                    &&& message.name == calls[i].name
                    &&& message.content.len() > 0
                }
        }),
{
    reveal_strlit("(no output)");
    let messages = round_messages(pending, reasoning, details);
    assert forall|i: int| 0 <= i < pending.len() implies #[trigger] messages[1 + i]
        == answering_message(pending[i]) by {}
}

/// Whatever tasks end, and in whatever order, each call that the model has made stands in the
/// conversation and is answered once, in its place and under its own identity.
pub proof fn round_answers_its_calls(
    calls: Seq<CallModel>,
    ended: Seq<EndedTask>,
    reasoning: Seq<char>,
    details: Seq<Seq<char>>,
)
    requires
        of_round(ended, calls),
    ensures
        ({
            let messages = round_messages(settled(round_run(calls, ended)), reasoning, details);
            &&& messages.len() == 1 + calls.len()
            &&& messages[0].tool_calls == calls
            &&& forall|i: int|
                0 <= i < calls.len() ==> {
                    let message = #[trigger] messages[1 + i];
                    &&& message.role == Role::Tool
                    &&& message.tool_call_id == calls[i].id
                    &&& message.name == calls[i].name
                    &&& message.content.len() > 0
                }
        }),
{
    round_keeps_its_calls(calls, ended);
    every_call_is_answered(settled(round_run(calls, ended)), reasoning, details);
}

/// The answer to a call in the conversation is the result of its task.
pub proof fn ended_call_is_answered_with_its_result(
    calls: Seq<CallModel>,
    ended: Seq<EndedTask>,
    k: int,
    reasoning: Seq<char>,
    details: Seq<Seq<char>>,
)
    requires
        of_round(ended, calls),
        last_of_its_call(ended, k),
    ensures
        ({
            let messages = round_messages(settled(round_run(calls, ended)), reasoning, details);
            let done = ended[k].done;
            messages[1 + done.index] == answering_message(
                PendingModel {
                    call: calls[done.index],
                    result: done.result,
                    duration: done.duration,
                },
            )
        }),
{
    round_keeps_its_calls(calls, ended);
    ended_call_has_its_result(calls, ended, k);
    let pending = settled(round_run(calls, ended));
    let messages = round_messages(pending, reasoning, details);
    assert(messages[1 + ended[k].done.index] == answering_message(pending[ended[k].done.index]));
}

/// The models of a round's parts hold every field as it is.
pub proof fn rounds_are_viewed_field_by_field(
    tool: PendingTool,
    data: DelegateData,
    done: TaskDone,
    round: ToolRound,
    outcome: ToolOutcome,
)
    ensures
        tool.deep_view().call == tool.call.deep_view(),
        tool.deep_view().result == tool.result@,
        tool.deep_view().duration == tool.duration@,
        ({
            let d = data.deep_view();
            &&& d.prompt_tokens == data.prompt_tokens
            &&& d.completion_tokens == data.completion_tokens
            &&& d.cost == data.cost
            &&& d.msgs.len() == data.msgs@.len()
            &&& forall|i: int|
                0 <= i < d.msgs.len() ==> #[trigger] d.msgs[i] == data.msgs@[i].deep_view()
            &&& d.subagent_id == data.subagent_id@
            &&& d.tool_call_id == data.tool_call_id@
        }),
        ({
            let t = done.deep_view();
            &&& t.index == done.index
            &&& t.result == done.result@
            &&& t.duration == done.duration@
            &&& t.is_error == done.is_error
            &&& match done.delegate_data {
                None => t.delegate_data is None,
                Some(d) => t.delegate_data == Some(d.deep_view()),
            }
        }),
        ({
            let r = round.deep_view();
            &&& r.pending.len() == round.pending@.len()
            &&& forall|i: int|
                0 <= i < r.pending.len() ==> #[trigger] r.pending[i] == round.pending@[
                    i
                ].deep_view()
            &&& r.outstanding == round.outstanding@
            &&& r.deferred_errors.len() == round.deferred_errors@.len()
            &&& forall|i: int|
                0 <= i < r.deferred_errors.len() ==> #[trigger] r.deferred_errors[i]
                    == round.deferred_errors@[i].deep_view()
            &&& r.subagent_cost == round.subagent_cost
        }),
        outcome.deep_view() == match outcome {
            ToolOutcome::InvalidArgs(error) => OutcomeModel::InvalidArgs(error@),
            ToolOutcome::Finished(result) => OutcomeModel::Finished(result@),
            ToolOutcome::Failed(error) => OutcomeModel::Failed(error@),
            ToolOutcome::TimedOut => OutcomeModel::TimedOut,
        },
{
}

/// A call goes to a subagent where it is of the delegate tool and there are subagents, and to the
/// tools of the session in every other case.
pub proof fn only_delegate_calls_are_delegated(session: AgentModel, call: CallModel)
    ensures
        route(session, call) == ToolRoute::Delegate <==> call.name == "delegate"@
            && session.subagents_state.subagents.len() > 0,
        route(session, call) == ToolRoute::Registry <==> call.name != "delegate"@
            || session.subagents_state.subagents.len() == 0,
{
}

/// What a tool has given out is the result of its task, character for character, and the same is
/// reported; no failure is flagged.
pub proof fn output_of_a_tool_is_its_result(
    index: int,
    call: CallModel,
    output: Seq<char>,
    duration: Seq<char>,
)
    ensures
        ({
            let done = outcome_task(index, call, OutcomeModel::Finished(output), duration);
            let event = result_event(call, output, duration);
            &&& done.result == output
            &&& !done.is_error
            &&& done.index == index
            &&& done.duration == duration
            &&& done.delegate_data is None
            &&& event.kind is ToolResult
            &&& event.kind->result == done.result
        }),
{
}

/// A tool that gave no result has failed, and what is told of it names the tool and, where there is
/// one, the whole reason.
pub proof fn failure_of_a_tool_is_told(
    index: int,
    call: CallModel,
    reason: Seq<char>,
    duration: Seq<char>,
)
    ensures
        ({
            let invalid = outcome_task(index, call, OutcomeModel::InvalidArgs(reason), duration);
            let failed = outcome_task(index, call, OutcomeModel::Failed(reason), duration);
            let late = outcome_task(index, call, OutcomeModel::TimedOut, duration);
            &&& invalid.result == "Tool "@ + call.name + " invalid args: "@ + reason
            &&& failed.result == "Tool "@ + call.name + " error: "@ + reason
            &&& late.result == "Tool "@ + call.name + " timed out after "@ + seq!['1', '2', '0']
                + "s"@
            &&& invalid.is_error && failed.is_error && late.is_error
            &&& invalid.index == index && failed.index == index && late.index == index
            &&& invalid.duration == duration && failed.duration == duration && late.duration
                == duration
            &&& invalid.delegate_data is None && failed.delegate_data is None
                && late.delegate_data is None
        }),
{
    reveal_with_fuel(decimal, 4);
    assert(decimal(120) =~= seq!['1', '2', '0']) by {
        assert(digit(1) == '1' && digit(2) == '2' && digit(0) == '0');
        assert(decimal(1) =~= seq!['1']);
        assert(decimal(12) =~= seq!['1', '2']);
    }
}

/// A call of a tool that the session has is run on the arguments as they parse, and refused for the
/// parser's reason where they do not parse; a call of any other tool is not run at all.
pub proof fn known_tool_runs_on_its_arguments(
    session: AgentModel,
    index: int,
    call: CallModel,
    parsed: Result<serde_json::Value, Seq<char>>,
    task: RegistryTask,
)
    requires
        registry_task(session, index, call, parsed, task),
    ensures
        ({
            let known = exists|t: int|
                0 <= t < session.tools.len() && (#[trigger] session.tools[t]).name == call.name;
            &&& known && parsed is Ok ==> task == RegistryTask::Run(parsed->Ok_0)
            &&& known && parsed is Err ==> {
                &&& task is Refused
                &&& task->Refused_0 is InvalidArgs
                &&& task->Refused_0->InvalidArgs_0@ == parsed->Err_0
            }
            &&& !known ==> {
                &&& task is NotFound
                &&& task->NotFound_0.index == index
                &&& task->NotFound_0.result@ == "Tool "@ + call.name + " not found"@
                &&& task->NotFound_0.duration@.len() == 0
                &&& task->NotFound_0.is_error
                &&& task->NotFound_0.delegate_data is None
            }
        }),
{
    tools_are_named_by_their_definitions(session.tools, call.name);
    if let RegistryTask::NotFound(done) = task {
        assert(done.deep_view().index == done.index);
        assert(done.deep_view().result == done.result@);
        assert(done.deep_view().duration == done.duration@);
        assert(done.deep_view().delegate_data == done.delegate_data.deep_view());
    }
    if let RegistryTask::Refused(outcome) = task {
        assert(outcome.deep_view() is InvalidArgs ==> outcome is InvalidArgs);
    }
}

/// In the conversation a result stands as it is, with how long it took; only where it is empty is
/// there something in its place. The message with the calls holds them as they are, with the
/// reasoning that led to them.
pub proof fn results_stand_in_the_conversation_as_they_are(
    pending: Seq<PendingModel>,
    reasoning: Seq<char>,
    details: Seq<Seq<char>>,
)
    ensures
        ({
            let messages = round_messages(pending, reasoning, details);
            &&& messages.len() == 1 + pending.len()
            &&& messages[0].role == Role::Assistant
            &&& messages[0].content.len() == 0
            &&& messages[0].reasoning_content == reasoning
            &&& messages[0].reasoning_details == details
            &&& messages[0].tool_calls.len() == pending.len()
            &&& forall|i: int|
                0 <= i < pending.len() ==> #[trigger] messages[0].tool_calls[i] == pending[i].call
            &&& messages[0].tool_call_id.len() == 0 && messages[0].name.len() == 0
            &&& messages[0].tool_duration.len() == 0
            &&& forall|i: int|
                0 <= i < pending.len() ==> {
                    let message = #[trigger] messages[1 + i];
                    &&& message.role == Role::Tool
                    &&& pending[i].result.len() > 0 ==> message.content == pending[i].result
                    &&& pending[i].result.len() == 0 ==> message.content == "(no output)"@
                    &&& message.tool_call_id == pending[i].call.id
                    &&& message.name == pending[i].call.name
                    &&& message.tool_duration == pending[i].duration
                    &&& message.reasoning_content.len() == 0
                    &&& message.reasoning_details.len() == 0
                    &&& message.tool_calls.len() == 0
                }
        }),
{
    let messages = round_messages(pending, reasoning, details);
    assert forall|i: int| 0 <= i < pending.len() implies #[trigger] messages[1 + i]
        == answering_message(pending[i]) by {}
}

/// A round begins with every call open, nothing to report and no cost.
pub proof fn round_begins_with_every_call_open(calls: Seq<CallModel>)
    ensures
        ({
            let round = begun_round(calls);
            &&& round.pending.len() == calls.len()
            &&& round.outstanding.len() == calls.len()
            &&& forall|i: int|
                0 <= i < calls.len() ==> {
                    let tool = #[trigger] round.pending[i];
                    tool.call == calls[i] && tool.result.len() == 0 && tool.duration.len() == 0
                }
            &&& forall|i: int| 0 <= i < calls.len() ==> #[trigger] round.outstanding[i]
            &&& round.deferred_errors.len() == 0
            &&& round.subagent_cost.bits == 0
        }),
{
}

/// A delegated task that ends adds what it has used to the session and what was said in it as one
/// turn more, and changes nothing else; any other task changes nothing about the session.
pub proof fn ended_task_adds_its_own_work(session: AgentModel, done: TaskModel, cost: Cost)
    requires
        tokens_fit(session.sess, done),
    ensures
        done.delegate_data is None ==> session_after(session, done, cost) == session,
        done.delegate_data matches Some(data) ==> {
            let after = session_after(session, done, cost);
            let turns = session.subagents_state.subagent_turns;
            &&& after.sess.prompt_tokens == session.sess.prompt_tokens + data.prompt_tokens
            &&& after.sess.completion_tokens == session.sess.completion_tokens
                + data.completion_tokens
            &&& after.sess.cost == cost
            &&& after.subagents_state.subagent_turns.len() == turns.len() + 1
            &&& after.subagents_state.subagent_turns.drop_last() == turns
            &&& after.subagents_state.subagent_turns.last().msgs == data.msgs
            &&& after.subagents_state.subagent_turns.last().subagent == data.subagent_id
            &&& after.subagents_state.subagent_turns.last().tool_call_id == data.tool_call_id
            &&& after.sess == (SessionModel {
                prompt_tokens: after.sess.prompt_tokens,
                completion_tokens: after.sess.completion_tokens,
                cost: after.sess.cost,
                ..session.sess
            })
            &&& after == (AgentModel {
                sess: after.sess,
                subagents_state: SubagentsModel {
                    subagent_turns: after.subagents_state.subagent_turns,
                    ..session.subagents_state
                },
                ..session
            })
        },
{
    if let Some(data) = done.delegate_data {
        let after = session_after(session, done, cost);
        assert(after.subagents_state.subagent_turns.drop_last()
            =~= session.subagents_state.subagent_turns);
    }
}

/// The tokens of a task can be added to those of a session wherever the sums are `i32` numbers; of
/// a task that was not delegated there are none.
pub proof fn tokens_that_can_be_counted_fit(sess: SessionModel, done: TaskModel)
    ensures
        done.delegate_data is None ==> tokens_fit(sess, done),
        done.delegate_data matches Some(data) ==> (tokens_fit(sess, done) <==> {
            &&& -0x8000_0000 <= sess.prompt_tokens + data.prompt_tokens < 0x8000_0000
            &&& -0x8000_0000 <= sess.completion_tokens + data.completion_tokens < 0x8000_0000
        }),
{
}

/// The cost after some tasks is the sum up to the last delegated one among them; where none was
/// delegated, nothing has been added.
pub proof fn last_delegated_task_has_the_sums(
    calls: Seq<CallModel>,
    session: AgentModel,
    ended: Seq<EndedTask>,
    k: int,
)
    requires
        -1 <= k < ended.len(),
        k >= 0 ==> ended[k].done.delegate_data is Some,
        forall|j: int| k < j < ended.len() ==> (#[trigger] ended[j]).done.delegate_data is None,
    ensures
        k >= 0 ==> round_run(calls, ended).subagent_cost == ended[k].totals.round,
        k >= 0 ==> session_run(session, ended).sess.cost == ended[k].totals.session,
        k < 0 ==> round_run(calls, ended).subagent_cost.bits == 0,
        k < 0 ==> session_run(session, ended) == session,
    decreases ended.len(),
{
    if ended.len() > 0 {
        let init = ended.drop_last();
        let n = ended.len() - 1;
        assert(ended.last() == ended[n]);
        if k < n {
            assert forall|j: int| k < j < init.len() implies (
            #[trigger] init[j]).done.delegate_data is None by {
                assert(init[j] == ended[j]);
            }
            last_delegated_task_has_the_sums(calls, session, init, k);
            if k >= 0 {
                assert(init[k] == ended[k]);
            }
        }
    }
}

/// The event that says that no task of a call has ended.
pub open spec fn lost_call_event(call: CallModel) -> EventModel {
    error_event(call, "tool task failed"@, seq![])
}

proof fn deferred_errors_in_order(calls: Seq<CallModel>, ended: Seq<EndedTask>)
    requires
        of_round(ended, calls),
    ensures
        round_run(calls, ended).deferred_errors == ended.filter(
            |task: EndedTask| task.done.is_error,
        ).map_values(
            |task: EndedTask|
                error_event(calls[task.done.index], task.done.result, task.done.duration),
        ),
    decreases ended.len(),
{
    reveal(Seq::filter);
    let keep = |task: EndedTask| task.done.is_error;
    let report = |task: EndedTask|
        error_event(calls[task.done.index], task.done.result, task.done.duration);
    if ended.len() == 0 {
        assert(round_run(calls, ended).deferred_errors =~= ended.filter(keep).map_values(report));
    } else {
        let init = ended.drop_last();
        let last = ended.last();
        prefix_of_round(ended, calls);
        deferred_errors_in_order(calls, init);
        round_keeps_its_calls(calls, init);
        assert(calls_of(round_run(calls, init).pending)[last.done.index]
            == calls[last.done.index]);
        assert(round_run(calls, ended).deferred_errors =~= ended.filter(keep).map_values(report));
    }
}

proof fn unended_events_in_order(calls: Seq<CallModel>, ended: Seq<EndedTask>, n: int)
    requires
        of_round(ended, calls),
        0 <= n <= calls.len(),
    ensures
        unended_events(round_run(calls, ended), n) == Seq::new(n as nat, |i: int| i).filter(
            |i: int| unended(ended, i),
        ).map_values(|i: int| lost_call_event(calls[i])),
    decreases n,
{
    reveal(Seq::filter);
    let round = round_run(calls, ended);
    let keep = |i: int| unended(ended, i);
    let report = |i: int| lost_call_event(calls[i]);
    let all = Seq::new(n as nat, |i: int| i);
    if n == 0 {
        assert(unended_events(round, n) =~= all.filter(keep).map_values(report));
    } else {
        let i = n - 1;
        unended_events_in_order(calls, ended, i);
        assert(all.drop_last() =~= Seq::new(i as nat, |i: int| i));
        round_keeps_its_calls(calls, ended);
        assert(calls_of(round.pending)[i] == calls[i]);
        if unended(ended, i) {
            unended_call_has_failed(calls, ended, i);
        } else {
            let k = last_task_of(ended, i);
            ended_call_has_its_result(calls, ended, k);
        }
        assert(unended_events(round, n) =~= all.filter(keep).map_values(report));
    }
}

/// When a round closes, what subagents have cost is reported first, where it is positive; then each
/// failure once, in the order in which the tasks have ended; then, in the order of the calls, each
/// call of which no task has ended.
pub proof fn round_closes_with_its_failures_in_order(calls: Seq<CallModel>, ended: Seq<EndedTask>)
    requires
        of_round(ended, calls),
    ensures
        ({
            let cost = round_run(calls, ended).subagent_cost;
            let costs = if cost.positive() {
                seq![usage_event(cost_only(cost))]
            } else {
                seq![]
            };
            let failures = ended.filter(|task: EndedTask| task.done.is_error).map_values(
                |task: EndedTask|
                    error_event(calls[task.done.index], task.done.result, task.done.duration),
            );
            let lost = Seq::new(calls.len(), |i: int| i).filter(
                |i: int| unended(ended, i),
            ).map_values(|i: int| lost_call_event(calls[i]));
            closing_events(round_run(calls, ended)) == costs + failures + lost
        }),
{
    round_keeps_its_calls(calls, ended);
    deferred_errors_in_order(calls, ended);
    unended_events_in_order(calls, ended, calls.len() as int);
}

proof fn open_calls_in_order(round: RoundModel, n: int)
    requires
        0 <= n <= round.pending.len(),
    ensures
        unended_events(round, n) == Seq::new(n as nat, |i: int| i).filter(
            |i: int| round.outstanding[i],
        ).map_values(
            |i: int|
                error_event(
                    round.pending[i].call,
                    "tool task failed"@,
                    round.pending[i].duration,
                ),
        ),
    decreases n,
{
    reveal(Seq::filter);
    let keep = |i: int| round.outstanding[i];
    let report = |i: int|
        error_event(round.pending[i].call, "tool task failed"@, round.pending[i].duration);
    let all = Seq::new(n as nat, |i: int| i);
    if n == 0 {
        assert(unended_events(round, n) =~= all.filter(keep).map_values(report));
    } else {
        open_calls_in_order(round, n - 1);
        assert(all.drop_last() =~= Seq::new((n - 1) as nat, |i: int| i));
        assert(unended_events(round, n) =~= all.filter(keep).map_values(report));
    }
}

/// However a round stands when it ends: calls that are open have failed, all others keep what came
/// of them, and what is reported is the cost where it is positive, the failures that were kept, and
/// then each open call once, in the order of the calls.
pub proof fn round_ends_with_no_call_open(round: RoundModel)
    ensures
        settled(round).len() == round.pending.len(),
        forall|i: int|
            0 <= i < round.pending.len() ==> {
                let tool = #[trigger] settled(round)[i];
                &&& tool.call == round.pending[i].call
                &&& tool.duration == round.pending[i].duration
                &&& round.outstanding[i] ==> tool.result == "tool task failed"@
                &&& !round.outstanding[i] ==> tool.result == round.pending[i].result
            },
        closing_events(round) == (if round.subagent_cost.positive() {
            seq![usage_event(cost_only(round.subagent_cost))]
        } else {
            seq![]
        }) + round.deferred_errors + Seq::new(round.pending.len(), |i: int| i).filter(
            |i: int| round.outstanding[i],
        ).map_values(
            |i: int|
                error_event(
                    round.pending[i].call,
                    "tool task failed"@,
                    round.pending[i].duration,
                ),
        ),
{
    open_calls_in_order(round, round.pending.len() as int);
}

/// A task that ends puts its result and how long it took with its call and closes it, keeps its
/// failure after those kept before, and leaves the other calls as they are.
pub proof fn ended_task_closes_its_call(round: RoundModel, done: TaskModel, cost: Cost)
    requires
        round.pending.len() == round.outstanding.len(),
        0 <= done.index < round.pending.len(),
    ensures
        ({
            let after = round_after(round, done, cost);
            let call = round.pending[done.index].call;
            &&& after.pending.len() == round.pending.len()
            &&& after.outstanding.len() == round.outstanding.len()
            &&& after.pending[done.index].call == call
            &&& after.pending[done.index].result == done.result
            &&& after.pending[done.index].duration == done.duration
            &&& !after.outstanding[done.index]
            &&& forall|i: int|
                0 <= i < round.pending.len() && i != done.index ==> #[trigger] after.pending[i]
                    == round.pending[i]
            &&& forall|i: int|
                0 <= i < round.pending.len() && i != done.index
                    ==> #[trigger] after.outstanding[i] == round.outstanding[i]
            &&& !done.is_error ==> after.deferred_errors == round.deferred_errors
            &&& done.is_error ==> after.deferred_errors == round.deferred_errors.push(
                error_event(call, done.result, done.duration),
            )
            &&& done.delegate_data is None ==> after.subagent_cost == round.subagent_cost
            &&& done.delegate_data is Some ==> after.subagent_cost == cost
        }),
{
}

} // verus!
