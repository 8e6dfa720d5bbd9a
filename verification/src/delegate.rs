//! Delegation: handing a task to a subagent, watching it work, and making of its conversation the
//! result of the call.

use vstd::prelude::*;
use vstd::string::*;

use crate::event::result_event;
use crate::event::Cost;
use crate::event::Event;
use crate::event::EventKind;
use crate::event::EventModel;
use crate::event::KindModel;
use crate::message::CallModel;
use crate::message::Message;
use crate::message::MessageModel;
use crate::message::Role;
use crate::message::StreamToolCall;
use crate::outside::is_date;
use crate::outside::is_time;
use crate::outside::quote;
use crate::outside::quoted;
use crate::outside::Timestamp;
use crate::round::ended_call_is_answered_with_its_result;
use crate::round::failed_task;
use crate::round::last_of_its_call;
use crate::round::of_round;
use crate::round::round_messages;
use crate::round::round_run;
use crate::round::route;
use crate::round::session_run;
use crate::round::settled;
use crate::round::DelegateData;
use crate::round::DelegateDataModel;
use crate::round::EndedTask;
use crate::round::TaskDone;
use crate::round::TaskModel;
use crate::round::ToolRoute;
use crate::session::begun_subagent;
use crate::session::one_per_role;
use crate::session::AgentModel;
use crate::session::AgentSession;
use crate::session::EntryModel;
use crate::session::SubagentDef;
use crate::session::SubagentModel;
use crate::text::blank;
use crate::text::blank_text_is_trimmed_away;
use crate::text::join;
use crate::text::join_strings;
use crate::text::str_eq;
use crate::text::trim;
use crate::text::trimmed;

verus! {

// ---------------------------------------------------------------------------------------------
// Accepting a task

/// The model of what is delegated.
#[verifier::ext_equal]
pub struct ParamsModel {
    pub subagent: Seq<char>,
    pub task: Seq<char>,
    pub context: Seq<char>,
}

/// What is delegated: a role, a task, and a context that may be empty.
#[derive(Debug)]
pub struct DelegateParams {
    pub subagent: String,
    pub task: String,
    pub context: String,
}

impl DeepView for DelegateParams {
    type V = ParamsModel;

    open spec fn deep_view(&self) -> ParamsModel {
        ParamsModel { subagent: self.subagent@, task: self.task@, context: self.context@ }
    }
}

/// The subagent that takes a role, among the first `n` entries.
pub open spec fn subagent_for(entries: Seq<EntryModel>, role: Seq<char>, n: int) -> Option<
    SubagentModel,
>
    decreases n,
{
    if n <= 0 {
        None
    } else if entries[n - 1].role == role {
        Some(entries[n - 1].def)
    } else {
        subagent_for(entries, role, n - 1)
    }
}

/// What comes of a call of the delegate tool before anything runs: the subagent to run and what it
/// is to do, or the message with which the call is refused.
pub open spec fn accepted(
    session: AgentModel,
    params: Result<ParamsModel, Seq<char>>,
) -> Result<(ParamsModel, SubagentModel), Seq<char>> {
    match params {
        Err(error) => Err("invalid delegate params: "@ + error),
        Ok(p) => if trimmed(p.task).len() == 0 {
            Err("invalid delegate params: task is empty"@)
        } else {
            let entries = session.subagents_state.subagents;
            match subagent_for(entries, p.subagent, entries.len() as int) {
                Some(def) => Ok((p, def)),
                None => Err("subagent "@ + quoted(p.subagent) + " not found"@),
            }
        },
    }
}

/// What is to be done for a call of the delegate tool.
#[derive(Debug)]
pub enum DelegateTask {
    /// Nothing: the call is refused, and the task has ended.
    Refused(TaskDone),
    /// This subagent is to be run on this.
    Run { params: DelegateParams, def: SubagentDef },
}

fn refusal(i: usize, message: String) -> (r: DelegateTask)
    ensures
        r matches DelegateTask::Refused(done) && done.deep_view() == failed_task(
            i as int,
            message@,
            seq![],
        ),
{
    DelegateTask::Refused(
        TaskDone {
            index: i,
            result: message,
            duration: String::new(),
            is_error: true,
            delegate_data: None,
        },
    )
}

/// The refusal of a call for a role that no subagent takes, where the role is quoted like this.
pub fn unknown_role(i: usize, quoted_role: &str) -> (r: DelegateTask)
    ensures
        r matches DelegateTask::Refused(done) && done.deep_view() == failed_task(
            i as int,
            "subagent "@ + quoted_role@ + " not found"@,
            seq![],
        ),
{
    let mut message = "subagent ".to_owned();
    message.append(quoted_role);
    message.append(" not found");
    refusal(i, message)
}

impl AgentSession {
    fn find_subagent(&self, role: &str) -> (r: Option<&SubagentDef>)
        ensures
            match r {
                Some(def) => subagent_for(
                    self.deep_view().subagents_state.subagents,
                    role@,
                    self.deep_view().subagents_state.subagents.len() as int,
                ) == Some(def.deep_view()),
                None => subagent_for(
                    self.deep_view().subagents_state.subagents,
                    role@,
                    self.deep_view().subagents_state.subagents.len() as int,
                ) is None,
            },
    {
        let ghost entries = self.deep_view().subagents_state.subagents;
        let subagents = &self.subagents_state.subagents;
        let mut n: usize = subagents.len();
        while n > 0
            invariant
                n <= subagents@.len(),
                entries == subagents.deep_view(),
                entries == self.deep_view().subagents_state.subagents,
                subagent_for(entries, role@, entries.len() as int) == subagent_for(
                    entries,
                    role@,
                    n as int,
                ),
            decreases n,
        {
            assert(entries[n - 1] == subagents@[n - 1].deep_view());
            if str_eq(subagents[n - 1].role.as_str(), role) {
                return Some(&subagents[n - 1].def);
            }
            n = n - 1;
        }
        None
    }

    /// What is to be done for the call `i` of a round, of the delegate tool, whose arguments parse
    /// as `params`.
    pub fn spawn_delegate_task(&self, i: usize, params: Result<DelegateParams, String>) -> (r:
        DelegateTask)
        ensures
            match accepted(
                self.deep_view(),
                match params {
                    Ok(p) => Ok(p.deep_view()),
                    Err(error) => Err(error@),
                },
            ) {
                Ok((p, d)) => r matches DelegateTask::Run { params, def } && params.deep_view()
                    == p && def.deep_view() == d,
                Err(message) => r matches DelegateTask::Refused(done) && done.deep_view()
                    == failed_task(i as int, message, seq![]),
            },
            r is Run ==> params is Ok && r->params.subagent@ == params->Ok_0.subagent@
                && r->params.task@ == params->Ok_0.task@ && r->params.context@
                == params->Ok_0.context@,
    {
        let params = match params {
            Ok(params) => params,
            Err(error) => {
                let mut message = "invalid delegate params: ".to_owned();
                message.append(error.as_str());
                return refusal(i, message);
            },
        };
        if trim(params.task.as_str()).as_str().is_empty() {
            return refusal(i, "invalid delegate params: task is empty".to_owned());
        }
        match self.find_subagent(params.subagent.as_str()) {
            Some(def) => DelegateTask::Run { def: def.clone(), params },
            None => unknown_role(i, quote(params.subagent.as_str()).as_str()),
        }
    }
}

/// The end of a delegated task, and the event that reports a result.
pub fn delegate_done(
    i: usize,
    tc: &StreamToolCall,
    outcome: (String, bool, Option<DelegateData>),
    duration: String,
) -> (r: (Option<Event>, TaskDone))
    ensures
        r.1.deep_view() == (TaskModel {
            index: i as int,
            result: outcome.0@,
            duration: duration@,
            is_error: outcome.1,
            delegate_data: outcome.2.deep_view(),
        }),
        if outcome.1 {
            r.0 is None
        } else {
            r.0 matches Some(event) && event.deep_view() == result_event(
                tc.deep_view(),
                outcome.0@,
                duration@,
            )
        },
{
    let (result, is_error, delegate_data) = outcome;
    let event = if is_error {
        None
    } else {
        Some(Event::tool_result_ev(tc, result.as_str(), duration.as_str()))
    };
    (event, TaskDone { index: i, result, duration, is_error, delegate_data })
}

// ---------------------------------------------------------------------------------------------
// Watching a subagent

/// The model of a subagent at work.
#[verifier::ext_equal]
pub struct WatchModel {
    pub sub_id: Seq<char>,
    pub tc_id: Seq<char>,
    pub had_error: bool,
    pub error_msg: Seq<char>,
}

/// A subagent at work: who it is, which call it works for, and whether it has reported an error.
#[derive(Debug)]
pub struct DelegateRun {
    pub sub_id: String,
    pub tc_id: String,
    pub had_error: bool,
    pub error_msg: String,
}

impl DeepView for DelegateRun {
    type V = WatchModel;

    open spec fn deep_view(&self) -> WatchModel {
        WatchModel {
            sub_id: self.sub_id@,
            tc_id: self.tc_id@,
            had_error: self.had_error,
            error_msg: self.error_msg@,
        }
    }
}

/// A subagent that has not reported anything yet.
pub open spec fn unheard(sub_id: Seq<char>, tc_id: Seq<char>) -> WatchModel {
    WatchModel { sub_id, tc_id, had_error: false, error_msg: seq![] }
}

/// What a subagent is told to do: the task, and the context after an empty line where there is
/// one.
pub open spec fn task_text(params: ParamsModel) -> Seq<char> {
    if params.context.len() == 0 {
        params.task
    } else {
        params.task + "\n\n"@ + params.context
    }
}

/// Begins a delegated task: the watch over the subagent, its session, and what it is told to do.
pub fn run_delegate(
    tc: &StreamToolCall,
    params: DelegateParams,
    def: &SubagentDef,
    sess_id: String,
    cwd: String,
) -> (r: (DelegateRun, AgentSession, String))
    ensures
        r.0.deep_view() == unheard(def.deep_view().id, tc.deep_view().id),
        r.1.wf(),
        exists|date: Seq<char>, created_at: Timestamp, updated_at: Timestamp|
            is_date(date) && is_time(created_at) && is_time(updated_at) && r.1.deep_view()
                == #[trigger] begun_subagent(
                date,
                created_at,
                updated_at,
                sess_id@,
                def.deep_view(),
                cwd@,
                tc.deep_view().id,
            ),
        r.2@ == task_text(params.deep_view()),
        r.2@ == if params.context@.len() == 0 {
            params.task@
        } else {
            params.task@ + "\n\n"@ + params.context@
        },
{
    let mut text = params.task;
    if !params.context.as_str().is_empty() {
        text.append("\n\n");
        text.append(params.context.as_str());
    }
    let id = tc.id.as_str();
    let sub = AgentSession::new_subagent(sess_id, def, cwd, id);
    proof {
        assert(id@ == tc.deep_view().id);
        let (date, created_at, updated_at) = choose|
            date: Seq<char>,
            created_at: Timestamp,
            updated_at: Timestamp,
        |
            is_date(date) && is_time(created_at) && is_time(updated_at) && sub.deep_view()
                == #[trigger] begun_subagent(
                date,
                created_at,
                updated_at,
                sess_id@,
                def.deep_view(),
                cwd@,
                id@,
            );
        assert(sub.deep_view() == begun_subagent(
            date,
            created_at,
            updated_at,
            sess_id@,
            def.deep_view(),
            cwd@,
            tc.deep_view().id,
        ));
    }
    let run = DelegateRun {
        sub_id: def.id.clone(),
        tc_id: tc.id.clone(),
        had_error: false,
        error_msg: String::new(),
    };
    (run, sub, text)
}

/// The error that an event reports, if it reports one.
pub open spec fn error_in(kind: KindModel) -> Option<Seq<char>> {
    match kind {
        KindModel::Error(message) => Some(message),
        KindModel::RetryAvailable(message) => Some(message),
        _ => None,
    }
}

/// Whether an event of a subagent is passed on: those of its tools are.
pub open spec fn passed_on(kind: KindModel) -> bool {
    kind is ToolCallStart || kind is ToolResult || kind is ToolError
}

/// The watch after an event of the subagent.
pub open spec fn watch_after(watch: WatchModel, event: EventModel) -> WatchModel {
    match error_in(event.kind) {
        Some(message) => WatchModel { had_error: true, error_msg: message, ..watch },
        None => watch,
    }
}

/// An event of a subagent, marked as such.
pub open spec fn marked(watch: WatchModel, event: EventModel) -> EventModel {
    EventModel { kind: event.kind, subagent: watch.sub_id, subagent_id: watch.tc_id }
}

impl DelegateRun {
    /// Takes in an event of the subagent, and gives out the event to pass on, if it is to be.
    pub fn on_event(&mut self, ev: Event) -> (r: Option<Event>)
        ensures
            final(self).deep_view() == watch_after(old(self).deep_view(), ev.deep_view()),
            if passed_on(ev.deep_view().kind) {
                r matches Some(event) && event.deep_view() == marked(
                    old(self).deep_view(),
                    ev.deep_view(),
                )
            } else {
                r is None
            },
    {
        match ev.kind {
            EventKind::AgentDone(_)
            | EventKind::Usage(_)
            | EventKind::TextDelta(_)
            | EventKind::ReasoningDelta(_)
            | EventKind::Retry(_) => None,
            EventKind::Error(message) => {
                self.had_error = true;
                self.error_msg = message;
                None
            },
            EventKind::RetryAvailable(message) => {
                self.had_error = true;
                self.error_msg = message;
                None
            },
            kind => Some(
                Event { kind, subagent: self.sub_id.clone(), subagent_id: self.tc_id.clone() },
            ),
        }
    }
}

// ---------------------------------------------------------------------------------------------
// The result of a subagent

/// Whether a message has to do with tools: it calls some, or answers a call.
pub open spec fn uses_tools(message: MessageModel) -> bool {
    message.role == Role::Tool || (message.role == Role::Assistant && message.tool_calls.len() > 0)
}

/// Whether a message is text of the model and nothing else.
pub open spec fn is_plain_answer(message: MessageModel) -> bool {
    &&& message.role == Role::Assistant
    &&& message.content.len() > 0
    &&& message.tool_calls.len() == 0
}

/// Whether the message `i` is a final one: text of the model after which no tool is used.
pub open spec fn is_final_answer(msgs: Seq<MessageModel>, i: int) -> bool {
    &&& is_plain_answer(msgs[i])
    &&& forall|j: int| i < j < msgs.len() ==> !uses_tools(#[trigger] msgs[j])
}

/// The index of the last final message among the first `n`.
pub open spec fn last_final(msgs: Seq<MessageModel>, n: int) -> Option<int>
    decreases n,
{
    if n <= 0 {
        None
    } else if is_final_answer(msgs, n - 1) {
        Some(n - 1)
    } else {
        last_final(msgs, n - 1)
    }
}

/// The names of the tools that have answered in the first `n` messages, each once, in the order of
/// their first answers.
pub open spec fn tools_used(msgs: Seq<MessageModel>, n: int) -> Seq<Seq<char>>
    decreases n,
{
    if n <= 0 {
        seq![]
    } else {
        let before = tools_used(msgs, n - 1);
        let message = msgs[n - 1];
        if message.role == Role::Tool && message.name.len() > 0 && !before.contains(message.name) {
            before.push(message.name)
        } else {
            before
        }
    }
}

/// What stands in for the result of a subagent that gave no final message.
pub open spec fn without_final(msgs: Seq<MessageModel>) -> Seq<char> {
    let tools = tools_used(msgs, msgs.len() as int);
    if tools.len() == 0 {
        "(subagent produced no output)"@
    } else {
        "(subagent finished without a final message; tools used: "@ + join(tools, ", "@) + ")"@
    }
}

/// The result of a subagent: its last final message, or what stands in for one.
pub open spec fn parent_result(msgs: Seq<MessageModel>) -> Seq<char> {
    match last_final(msgs, msgs.len() as int) {
        Some(i) => msgs[i].content,
        None => without_final(msgs),
    }
}

fn contains_name(names: &Vec<String>, name: &str) -> (r: bool)
    ensures
        r == names.deep_view().contains(name@),
{
    let ghost model = names.deep_view();
    let mut i: usize = 0;
    while i < names.len()
        invariant
            i <= names@.len(),
            model == names.deep_view(),
            forall|j: int| 0 <= j < i ==> model[j] != name@,
        decreases names@.len() - i,
    {
        assert(model[i as int] == names@[i as int]@);
        if str_eq(names[i].as_str(), name) {
            return true;
        }
        i = i + 1;
    }
    false
}

/// The result of a subagent that has left this conversation.
pub fn extract_parent_result(msgs: &Vec<Message>) -> (r: String)
    ensures
        r@ == parent_result(msgs.deep_view()),
{
    let ghost model = msgs.deep_view();
    let mut n: usize = msgs.len();
    let mut tools_after = false;
    while n > 0
        invariant
            n <= msgs@.len(),
            model == msgs.deep_view(),
            tools_after == exists|j: int| n <= j < model.len() && uses_tools(#[trigger] model[j]),
            last_final(model, model.len() as int) == last_final(model, n as int),
        decreases n,
    {
        let msg = &msgs[n - 1];
        assert(model[n - 1] == msg.deep_view());
        if !tools_after && msg.role == Role::Assistant && !msg.content.as_str().is_empty()
            && msg.tool_calls.len() == 0 {
            assert(is_final_answer(model, n - 1));
            return msg.content.clone();
        }
        assert(!is_final_answer(model, n - 1));
        if msg.role == Role::Tool || (msg.role == Role::Assistant && msg.tool_calls.len() > 0) {
            tools_after = true;
        }
        n = n - 1;
    }
    let mut tools: Vec<String> = Vec::new();
    let mut i: usize = 0;
    assert(tools.deep_view() =~= seq![]);
    while i < msgs.len()
        invariant
            i <= msgs@.len(),
            model == msgs.deep_view(),
            tools.deep_view() == tools_used(model, i as int),
        decreases msgs@.len() - i,
    {
        let msg = &msgs[i];
        assert(model[i as int] == msg.deep_view());
        if msg.role == Role::Tool && !msg.name.as_str().is_empty() && !contains_name(
            &tools,
            msg.name.as_str(),
        ) {
            let ghost before = tools.deep_view();
            tools.push(msg.name.clone());
            assert(tools.deep_view() =~= before.push(msg.name@));
        }
        i = i + 1;
    }
    if tools.len() == 0 {
        "(subagent produced no output)".to_owned()
    } else {
        let mut r = "(subagent finished without a final message; tools used: ".to_owned();
        r.append(join_strings(&tools, ", ").as_str());
        r.append(")");
        r
    }
}

/// How a subagent came to an end.
#[derive(Debug)]
pub enum SubagentExit {
    /// By itself, with this to show.
    Finished {
        prompt_tokens: i32,
        completion_tokens: i32,
        cost: Cost,
        captured_msgs: Vec<Message>,
        working_msgs: Vec<Message>,
    },
    /// It was aborted.
    Aborted,
    /// It broke down, for this reason.
    Panicked(String),
}

/// The model of how a subagent came to an end.
#[verifier::ext_equal]
pub enum ExitModel {
    Finished {
        prompt_tokens: i32,
        completion_tokens: i32,
        cost: Cost,
        captured_msgs: Seq<MessageModel>,
        working_msgs: Seq<MessageModel>,
    },
    Aborted,
    Panicked(Seq<char>),
}

impl DeepView for SubagentExit {
    type V = ExitModel;

    open spec fn deep_view(&self) -> ExitModel {
        match self {
            SubagentExit::Finished {
                prompt_tokens,
                completion_tokens,
                cost,
                captured_msgs,
                working_msgs,
            } => ExitModel::Finished {
                prompt_tokens: *prompt_tokens,
                completion_tokens: *completion_tokens,
                cost: *cost,
                captured_msgs: captured_msgs.deep_view(),
                working_msgs: working_msgs.deep_view(),
            },
            SubagentExit::Aborted => ExitModel::Aborted,
            SubagentExit::Panicked(reason) => ExitModel::Panicked(reason@),
        }
    }
}

/// The conversation of a subagent that came to an end: what was captured of it, or what it was
/// working on.
pub open spec fn conversation(exit: ExitModel) -> Seq<MessageModel> {
    match exit {
        ExitModel::Finished { captured_msgs, working_msgs, .. } => if captured_msgs.len() == 0 {
            working_msgs
        } else {
            captured_msgs
        },
        _ => seq![],
    }
}

/// What the delegating model is told of the error that a subagent has reported.
pub open spec fn error_text(message: Seq<char>) -> Seq<char> {
    if message.len() == 0 {
        "(subagent encountered an error)"@
    } else {
        "(subagent error: "@ + message + ")"@
    }
}

/// The result of a delegated task.
pub open spec fn delegate_result(watch: WatchModel, exit: ExitModel) -> Seq<char> {
    match exit {
        ExitModel::Aborted => "(subagent aborted)"@,
        ExitModel::Panicked(reason) => "subagent task panicked: "@ + reason,
        ExitModel::Finished { .. } => if watch.had_error {
            error_text(watch.error_msg)
        } else {
            parent_result(conversation(exit))
        },
    }
}

/// Whether a delegated task has failed: where the subagent came to no end of its own, or has
/// reported an error.
pub open spec fn delegate_failed(watch: WatchModel, exit: ExitModel) -> bool {
    !(exit is Finished) || watch.had_error
}

/// What a delegated task has used and said.
pub open spec fn delegate_data(watch: WatchModel, exit: ExitModel) -> DelegateDataModel {
    DelegateDataModel {
        prompt_tokens: match exit {
            ExitModel::Finished { prompt_tokens, .. } => prompt_tokens,
            _ => 0,
        },
        completion_tokens: match exit {
            ExitModel::Finished { completion_tokens, .. } => completion_tokens,
            _ => 0,
        },
        cost: match exit {
            ExitModel::Finished { cost, .. } => cost,
            _ => Cost { bits: 0 },
        },
        msgs: conversation(exit),
        subagent_id: watch.sub_id,
        tool_call_id: watch.tc_id,
    }
}

impl DelegateRun {
    /// Ends a delegated task: its result, whether it has failed, and what it has used and said.
    pub fn finish(self, exit: SubagentExit) -> (r: (String, bool, Option<DelegateData>))
        ensures
            r.0@ == delegate_result(self.deep_view(), exit.deep_view()),
            r.1 == delegate_failed(self.deep_view(), exit.deep_view()),
            r.2.deep_view() == Some(delegate_data(self.deep_view(), exit.deep_view())),
    {
        let (result, failed, prompt_tokens, completion_tokens, cost, msgs): (
            String,
            bool,
            i32,
            i32,
            Cost,
            Vec<Message>,
        ) = match exit {
            SubagentExit::Aborted => (
                "(subagent aborted)".to_owned(),
                true,
                0,
                0,
                Cost::zero(),
                Vec::new(),
            ),
            SubagentExit::Panicked(reason) => {
                let mut text = "subagent task panicked: ".to_owned();
                text.append(reason.as_str());
                (text, true, 0, 0, Cost::zero(), Vec::new())
            },
            SubagentExit::Finished {
                prompt_tokens,
                completion_tokens,
                cost,
                captured_msgs,
                working_msgs,
            } => {
                let msgs = if captured_msgs.len() == 0 {
                    working_msgs
                } else {
                    captured_msgs
                };
                let text = if self.had_error {
                    if self.error_msg.as_str().is_empty() {
                        "(subagent encountered an error)".to_owned()
                    } else {
                        let mut text = "(subagent error: ".to_owned();
                        text.append(self.error_msg.as_str());
                        text.append(")");
                        text
                    }
                } else {
                    extract_parent_result(&msgs)
                };
                (text, self.had_error, prompt_tokens, completion_tokens, cost, msgs)
            },
        };
        assert(msgs.deep_view() =~= conversation(exit.deep_view()));
        let data = DelegateData {
            prompt_tokens,
            completion_tokens,
            cost,
            msgs,
            subagent_id: self.sub_id,
            tool_call_id: self.tc_id,
        };
        (result, failed, Some(data))
    }
}

// ---------------------------------------------------------------------------------------------
// Laws

proof fn rounds_bring_no_subagents(session: AgentModel, ended: Seq<EndedTask>)
    ensures
        session_run(session, ended).subagents_state.subagents
            == session.subagents_state.subagents,
    decreases ended.len(),
{
    if ended.len() > 0 {
        rounds_bring_no_subagents(session, ended.drop_last());
    }
}

/// There is no nested delegation: whatever tasks have ended in it, a subagent runs every call with
/// its own tools.
pub proof fn subagent_does_not_delegate(
    date: Seq<char>,
    created_at: Timestamp,
    updated_at: Timestamp,
    sess_id: Seq<char>,
    def: SubagentModel,
    cwd: Seq<char>,
    tool_call_id: Seq<char>,
    ended: Seq<EndedTask>,
    call: CallModel,
)
    ensures
        route(
            session_run(
                begun_subagent(date, created_at, updated_at, sess_id, def, cwd, tool_call_id),
                ended,
            ),
            call,
        ) == ToolRoute::Registry,
{
    rounds_bring_no_subagents(
        begun_subagent(date, created_at, updated_at, sess_id, def, cwd, tool_call_id),
        ended,
    );
}

/// Every subagent can be reached by its role.
pub proof fn subagent_is_found_by_its_role(entries: Seq<EntryModel>, i: int, n: int)
    requires
        one_per_role(entries),
        0 <= i < n <= entries.len(),
    ensures
        subagent_for(entries, entries[i].role, n) == Some(entries[i].def),
    decreases n,
{
    if i < n - 1 {
        assert(entries[i].role != entries[n - 1].role);
        subagent_is_found_by_its_role(entries, i, n - 1);
    }
}

/// A role that no subagent takes is found nowhere.
pub proof fn unknown_role_is_not_found(entries: Seq<EntryModel>, role: Seq<char>, n: int)
    requires
        0 <= n <= entries.len(),
        forall|i: int| 0 <= i < n ==> (#[trigger] entries[i]).role != role,
    ensures
        subagent_for(entries, role, n) is None,
    decreases n,
{
    if n > 0 {
        unknown_role_is_not_found(entries, role, n - 1);
    }
}

/// The watch after these events, one after another.
pub open spec fn watched(watch: WatchModel, events: Seq<EventModel>) -> WatchModel
    decreases events.len(),
{
    if events.len() == 0 {
        watch
    } else {
        watch_after(watched(watch, events.drop_last()), events.last())
    }
}

/// The events that are passed on of these, one after another.
pub open spec fn passed_events(watch: WatchModel, events: Seq<EventModel>) -> Seq<EventModel>
    decreases events.len(),
{
    if events.len() == 0 {
        seq![]
    } else {
        let before = passed_events(watch, events.drop_last());
        if passed_on(events.last().kind) {
            before.push(marked(watched(watch, events.drop_last()), events.last()))
        } else {
            before
        }
    }
}

/// A watch never forgets whom it is over and for which call.
pub proof fn watch_stays_over_its_subagent(watch: WatchModel, events: Seq<EventModel>)
    ensures
        watched(watch, events).sub_id == watch.sub_id,
        watched(watch, events).tc_id == watch.tc_id,
    decreases events.len(),
{
    if events.len() > 0 {
        watch_stays_over_its_subagent(watch, events.drop_last());
    }
}

/// The last error that a subagent reports is the one that counts.
pub proof fn last_error_counts(watch: WatchModel, events: Seq<EventModel>, k: int)
    requires
        0 <= k < events.len(),
        error_in(events[k].kind) is Some,
        forall|j: int| k < j < events.len() ==> error_in((#[trigger] events[j]).kind) is None,
    ensures
        watched(watch, events).had_error,
        Some(watched(watch, events).error_msg) == error_in(events[k].kind),
    decreases events.len(),
{
    if k < events.len() - 1 {
        let init = events.drop_last();
        assert(events.last() == events[events.len() - 1]);
        assert(init[k] == events[k]);
        assert forall|j: int| k < j < init.len() implies error_in((#[trigger] init[j]).kind)
            is None by {
            assert(init[j] == events[j]);
        }
        last_error_counts(watch, init, k);
    }
}

/// A subagent that reports no error has none.
pub proof fn no_error_without_a_report(watch: WatchModel, events: Seq<EventModel>)
    requires
        forall|k: int| 0 <= k < events.len() ==> error_in((#[trigger] events[k]).kind) is None,
    ensures
        watched(watch, events) == watch,
    decreases events.len(),
{
    if events.len() > 0 {
        let init = events.drop_last();
        assert(events.last() == events[events.len() - 1]);
        assert forall|k: int| 0 <= k < init.len() implies error_in((#[trigger] init[k]).kind)
            is None by {
            assert(init[k] == events[k]);
        }
        no_error_without_a_report(watch, init);
    }
}

/// What is passed on of a subagent are the events of its tools, all of them, in their order, each
/// marked with the subagent and the call that it works for; its text, its errors and its usage are
/// not passed on.
pub proof fn tool_events_are_passed_on(watch: WatchModel, events: Seq<EventModel>)
    ensures
        passed_events(watch, events) == events.filter(
            |event: EventModel| passed_on(event.kind),
        ).map_values(|event: EventModel| marked(watch, event)),
    decreases events.len(),
{
    reveal(Seq::filter);
    let keep = |event: EventModel| passed_on(event.kind);
    let mark = |event: EventModel| marked(watch, event);
    if events.len() == 0 {
        assert(passed_events(watch, events) =~= events.filter(keep).map_values(mark));
    } else {
        let init = events.drop_last();
        tool_events_are_passed_on(watch, init);
        watch_stays_over_its_subagent(watch, init);
        assert(passed_events(watch, events) =~= events.filter(keep).map_values(mark));
    }
}

/// Where a subagent has reported an error, nothing that it has said gets into the result.
pub proof fn error_result_hides_the_conversation(
    watch: WatchModel,
    exit: ExitModel,
    other: ExitModel,
)
    requires
        watch.had_error,
        exit is Finished,
        other is Finished,
    ensures
        delegate_result(watch, exit) == delegate_result(watch, other),
        delegate_result(watch, exit) == error_text(watch.error_msg),
        delegate_failed(watch, exit),
{
}

proof fn last_final_is_last(msgs: Seq<MessageModel>, n: int)
    requires
        0 <= n <= msgs.len(),
    ensures
        match last_final(msgs, n) {
            Some(i) => 0 <= i < n && is_final_answer(msgs, i) && forall|j: int|
                i < j < n ==> !is_final_answer(msgs, j),
            None => forall|j: int| 0 <= j < n ==> !is_final_answer(msgs, j),
        },
    decreases n,
{
    if n > 0 {
        last_final_is_last(msgs, n - 1);
    }
}

/// A final message, with no other text of the model after it, is the result.
pub proof fn final_answer_is_the_result(msgs: Seq<MessageModel>, i: int)
    requires
        0 <= i < msgs.len(),
        is_final_answer(msgs, i),
        forall|j: int| i < j < msgs.len() ==> !is_plain_answer(#[trigger] msgs[j]),
    ensures
        parent_result(msgs) == msgs[i].content,
{
    last_final_is_last(msgs, msgs.len() as int);
    let k = last_final(msgs, msgs.len() as int);
    if k is Some && k.unwrap() > i {
        assert(!is_plain_answer(msgs[k.unwrap()]));
    }
}

/// Text from before a use of tools is never the result: where tools are used and no text of the
/// model follows, the result says that there was no final message.
pub proof fn text_before_tools_is_not_the_result(msgs: Seq<MessageModel>, j: int)
    requires
        0 <= j < msgs.len(),
        uses_tools(msgs[j]),
        forall|i: int| j < i < msgs.len() ==> !is_plain_answer(#[trigger] msgs[i]),
    ensures
        parent_result(msgs) == without_final(msgs),
{
    last_final_is_last(msgs, msgs.len() as int);
    let k = last_final(msgs, msgs.len() as int);
    if k is Some {
        let i = k.unwrap();
        if i > j {
            assert(!is_plain_answer(msgs[i]));
        } else if i < j {
            assert(!uses_tools(msgs[j]));
        }
    }
}

/// The result of a subagent is never empty.
pub proof fn result_is_not_empty(msgs: Seq<MessageModel>)
    ensures
        parent_result(msgs).len() > 0,
{
    reveal_strlit("(subagent produced no output)");
    reveal_strlit("(subagent finished without a final message; tools used: ");
    last_final_is_last(msgs, msgs.len() as int);
}

/// Whatever a delegated task comes to, there is something to tell of it.
pub proof fn delegate_result_is_not_empty(watch: WatchModel, exit: ExitModel)
    ensures
        delegate_result(watch, exit).len() > 0,
{
    reveal_strlit("(subagent aborted)");
    reveal_strlit("subagent task panicked: ");
    reveal_strlit("(subagent encountered an error)");
    reveal_strlit("(subagent error: ");
    result_is_not_empty(conversation(exit));
}

/// What a subagent comes to is what the delegating model reads, word for word, as the answer to
/// its call.
pub proof fn delegated_result_answers_the_call(
    calls: Seq<CallModel>,
    ended: Seq<EndedTask>,
    k: int,
    watch: WatchModel,
    exit: ExitModel,
    reasoning: Seq<char>,
    details: Seq<Seq<char>>,
)
    requires
        of_round(ended, calls),
        last_of_its_call(ended, k),
        ended[k].done.result == delegate_result(watch, exit),
    ensures
        ({
            let messages = round_messages(settled(round_run(calls, ended)), reasoning, details);
            let i = ended[k].done.index;
            &&& messages[1 + i].tool_call_id == calls[i].id
            &&& messages[1 + i].content == delegate_result(watch, exit)
        }),
{
    delegate_result_is_not_empty(watch, exit);
    ended_call_is_answered_with_its_result(calls, ended, k, reasoning, details);
}

/// The tools that are named as used are those that have answered, each named once.
pub proof fn used_tools_are_named_once(msgs: Seq<MessageModel>, n: int)
    requires
        0 <= n <= msgs.len(),
    ensures
        tools_used(msgs, n).no_duplicates(),
        forall|name: Seq<char>|
            #[trigger] tools_used(msgs, n).contains(name) <==> exists|i: int|
                0 <= i < n && (#[trigger] msgs[i]).role == Role::Tool && msgs[i].name == name
                    && name.len() > 0,
    decreases n,
{
    if n > 0 {
        used_tools_are_named_once(msgs, n - 1);
        let before = tools_used(msgs, n - 1);
        let after = tools_used(msgs, n);
        let message = msgs[n - 1];
        assert forall|name: Seq<char>| #[trigger] after.contains(name) <==> exists|i: int|
            0 <= i < n && (#[trigger] msgs[i]).role == Role::Tool && msgs[i].name == name
                && name.len() > 0 by {
            if after.contains(name) {
                if before.contains(name) {
                    let i = choose|i: int|
                        0 <= i < n - 1 && (#[trigger] msgs[i]).role == Role::Tool && msgs[i].name
                            == name && name.len() > 0;
                    assert(msgs[i].role == Role::Tool);
                } else {
                    let e = choose|e: int| 0 <= e < after.len() && after[e] == name;
                    assert(e == before.len());
                    assert(msgs[n - 1].role == Role::Tool);
                }
            }
            if exists|i: int|
                0 <= i < n && (#[trigger] msgs[i]).role == Role::Tool && msgs[i].name == name
                    && name.len() > 0 {
                let i = choose|i: int|
                    0 <= i < n && (#[trigger] msgs[i]).role == Role::Tool && msgs[i].name == name
                        && name.len() > 0;
                if i < n - 1 {
                    assert(before.contains(name));
                }
                if before.contains(name) {
                    let e = choose|e: int| 0 <= e < before.len() && before[e] == name;
                    assert(after[e] == name);
                } else {
                    assert(after[after.len() - 1] == name);
                }
            }
        }
        assert(after.no_duplicates());
    }
}

/// The models of delegated tasks hold every field as it is.
pub proof fn delegations_are_viewed_field_by_field(
    params: DelegateParams,
    run: DelegateRun,
    exit: SubagentExit,
)
    ensures
        params.deep_view().subagent == params.subagent@,
        params.deep_view().task == params.task@,
        params.deep_view().context == params.context@,
        run.deep_view().sub_id == run.sub_id@,
        run.deep_view().tc_id == run.tc_id@,
        run.deep_view().had_error == run.had_error,
        run.deep_view().error_msg == run.error_msg@,
        match exit {
            SubagentExit::Aborted => exit.deep_view() is Aborted,
            SubagentExit::Panicked(reason) => exit.deep_view() == ExitModel::Panicked(reason@),
            SubagentExit::Finished {
                prompt_tokens,
                completion_tokens,
                cost,
                captured_msgs,
                working_msgs,
            } => {
                &&& exit.deep_view() is Finished
                &&& exit.deep_view()->prompt_tokens == prompt_tokens
                &&& exit.deep_view()->completion_tokens == completion_tokens
                &&& exit.deep_view()->cost == cost
                &&& exit.deep_view()->captured_msgs == captured_msgs.deep_view()
                &&& exit.deep_view()->working_msgs == working_msgs.deep_view()
            },
        },
{
}

/// The last text of the model, where no tool is used in it or after it, is the result, whatever
/// else the message carries.
pub proof fn last_words_of_the_model_are_the_result(msgs: Seq<MessageModel>, i: int)
    requires
        0 <= i < msgs.len(),
        msgs[i].role == Role::Assistant,
        msgs[i].content.len() > 0,
        msgs[i].tool_calls.len() == 0,
        forall|j: int|
            i < j < msgs.len() ==> {
                &&& (#[trigger] msgs[j]).role != Role::Tool
                &&& msgs[j].role == Role::Assistant ==> msgs[j].tool_calls.len() == 0
                    && msgs[j].content.len() == 0
            },
    ensures
        parent_result(msgs) == msgs[i].content,
{
    assert(is_final_answer(msgs, i));
    assert forall|j: int| i < j < msgs.len() implies !is_plain_answer(#[trigger] msgs[j]) by {}
    final_answer_is_the_result(msgs, i);
}

proof fn used_tools_are_named_in_order(msgs: Seq<MessageModel>, n: int, a: int, b: int) -> (i: int)
    requires
        0 <= n <= msgs.len(),
        0 <= a < b < tools_used(msgs, n).len(),
    ensures
        0 <= i < n,
        msgs[i].role == Role::Tool && msgs[i].name == tools_used(msgs, n)[a],
        forall|k: int|
            0 <= k <= i ==> !((#[trigger] msgs[k]).role == Role::Tool && msgs[k].name
                == tools_used(msgs, n)[b]),
    decreases n,
{
    let before = tools_used(msgs, n - 1);
    let after = tools_used(msgs, n);
    used_tools_are_named_once(msgs, n);
    if b < before.len() {
        used_tools_are_named_in_order(msgs, n - 1, a, b)
    } else {
        used_tools_are_named_once(msgs, n - 1);
        assert(after == before.push(msgs[n - 1].name));
        let name = after[a];
        assert(before[a] == name);
        assert(before.contains(name));
        let i = choose|i: int|
            0 <= i < n - 1 && (#[trigger] msgs[i]).role == Role::Tool && msgs[i].name == name
                && name.len() > 0;
        assert(!before.contains(after[b]));
        assert forall|k: int| 0 <= k <= i implies !((#[trigger] msgs[k]).role == Role::Tool
            && msgs[k].name == after[b]) by {
            if msgs[k].role == Role::Tool && msgs[k].name == after[b] {
                assert(before.contains(after[b]));
            }
        }
        i
    }
}

/// Whether the result names these tools as used, for want of a final message.
pub open spec fn names_used_tools(result: Seq<char>, names: Seq<Seq<char>>) -> bool {
    result == "(subagent finished without a final message; tools used: "@ + join(names, ", "@)
        + ")"@
}

/// Where every text of the model is followed by a use of tools, there is no final message. The
/// result then names the tools that have answered, each once, in the order of their first answers;
/// where none has, it says that there was no output.
pub proof fn without_last_words_the_tools_are_named(msgs: Seq<MessageModel>)
    requires
        forall|i: int|
            0 <= i < msgs.len() && (#[trigger] msgs[i]).role == Role::Assistant
                && msgs[i].content.len() > 0 && msgs[i].tool_calls.len() == 0 ==> exists|j: int|
                i < j < msgs.len() && ((#[trigger] msgs[j]).role == Role::Tool || (msgs[j].role
                    == Role::Assistant && msgs[j].tool_calls.len() > 0)),
    ensures
        (forall|i: int|
            0 <= i < msgs.len() ==> (#[trigger] msgs[i]).role != Role::Tool || msgs[i].name.len()
                == 0) ==> parent_result(msgs) == "(subagent produced no output)"@,
        (exists|i: int|
            0 <= i < msgs.len() && (#[trigger] msgs[i]).role == Role::Tool && msgs[i].name.len()
                > 0) ==> exists|names: Seq<Seq<char>>|
            {
                &&& #[trigger] names_used_tools(parent_result(msgs), names)
                &&& names.no_duplicates()
                &&& forall|name: Seq<char>|
                    #[trigger] names.contains(name) <==> name.len() > 0 && exists|i: int|
                        0 <= i < msgs.len() && (#[trigger] msgs[i]).role == Role::Tool
                            && msgs[i].name == name
                &&& forall|a: int, b: int|
                    0 <= a < b < names.len() ==> answered_before(
                        msgs,
                        #[trigger] names[a],
                        #[trigger] names[b],
                    )
            },
{
    let n = msgs.len() as int;
    last_final_is_last(msgs, n);
    if last_final(msgs, n) is Some {
        let i = last_final(msgs, n).unwrap();
        assert(is_plain_answer(msgs[i]));
        let j = choose|j: int|
            i < j < msgs.len() && ((#[trigger] msgs[j]).role == Role::Tool || (msgs[j].role
                == Role::Assistant && msgs[j].tool_calls.len() > 0));
        assert(!uses_tools(msgs[j]));
    }
    assert(parent_result(msgs) == without_final(msgs));
    let names = tools_used(msgs, n);
    used_tools_are_named_once(msgs, n);
    if forall|i: int|
        0 <= i < msgs.len() ==> (#[trigger] msgs[i]).role != Role::Tool || msgs[i].name.len()
            == 0 {
        if names.len() > 0 {
            assert(names.contains(names[0]));
        }
    }
    if exists|i: int|
        0 <= i < msgs.len() && (#[trigger] msgs[i]).role == Role::Tool && msgs[i].name.len() > 0 {
        let i = choose|i: int|
            0 <= i < msgs.len() && (#[trigger] msgs[i]).role == Role::Tool && msgs[i].name.len()
                > 0;
        assert(names.contains(msgs[i].name));
        assert(names_used_tools(parent_result(msgs), names));
        assert forall|name: Seq<char>| #[trigger] names.contains(name) <==> name.len() > 0
            && exists|i: int|
            0 <= i < msgs.len() && (#[trigger] msgs[i]).role == Role::Tool && msgs[i].name
                == name by {
            if name.len() > 0 && exists|i: int|
                0 <= i < msgs.len() && (#[trigger] msgs[i]).role == Role::Tool && msgs[i].name
                    == name {
                let i = choose|i: int|
                    0 <= i < msgs.len() && (#[trigger] msgs[i]).role == Role::Tool && msgs[i].name
                        == name;
                assert(msgs[i].name == name && name.len() > 0);
            }
        }
        assert forall|a: int, b: int| 0 <= a < b < names.len() implies answered_before(
            msgs,
            #[trigger] names[a],
            #[trigger] names[b],
        ) by {
            let i = used_tools_are_named_in_order(msgs, n, a, b);
            assert(answers_first(msgs, names[a], names[b], i));
        }
    }
}

/// Whether the message `i` is an answer of the tool `first`, and up to it there is none of `second`.
pub open spec fn answers_first(
    msgs: Seq<MessageModel>,
    first: Seq<char>,
    second: Seq<char>,
    i: int,
) -> bool {
    &&& 0 <= i < msgs.len()
    &&& msgs[i].role == Role::Tool && msgs[i].name == first
    &&& forall|k: int|
        0 <= k <= i ==> !((#[trigger] msgs[k]).role == Role::Tool && msgs[k].name == second)
}

/// Whether the tool `first` has answered before the tool `second` has.
pub open spec fn answered_before(
    msgs: Seq<MessageModel>,
    first: Seq<char>,
    second: Seq<char>,
) -> bool {
    exists|i: int| answers_first(msgs, first, second, i)
}

/// A call whose task is not blank, for a role that a subagent takes, is accepted: that subagent runs
/// with what the call gave, unchanged, and is told the task and, where there is one, the context
/// after an empty line.
pub proof fn accepted_call_reaches_its_subagent_unchanged(
    session: AgentModel,
    params: ParamsModel,
    i: int,
)
    requires
        !blank(params.task),
        one_per_role(session.subagents_state.subagents),
        0 <= i < session.subagents_state.subagents.len(),
        session.subagents_state.subagents[i].role == params.subagent,
    ensures
        ({
            let r = accepted(session, Ok(params));
            &&& r is Ok
            &&& r->Ok_0.0.subagent == params.subagent
            &&& r->Ok_0.0.task == params.task
            &&& r->Ok_0.0.context == params.context
            &&& r->Ok_0.1 == session.subagents_state.subagents[i].def
            &&& params.context.len() == 0 ==> task_text(r->Ok_0.0) == params.task
            &&& params.context.len() > 0 ==> task_text(r->Ok_0.0) == params.task + "\n\n"@
                + params.context
        }),
{
    let entries = session.subagents_state.subagents;
    blank_text_is_trimmed_away(params.task);
    subagent_is_found_by_its_role(entries, i, entries.len() as int);
}

/// A call is refused where its arguments could not be read, for the reader's reason; where its task
/// is blank, whatever the role; and where no subagent takes the role, which is quoted.
pub proof fn unfit_call_is_refused_with_the_reason(
    session: AgentModel,
    error: Seq<char>,
    params: ParamsModel,
)
    ensures
        accepted(session, Err(error)) == Err::<(ParamsModel, SubagentModel), Seq<char>>(
            "invalid delegate params: "@ + error,
        ),
        blank(params.task) ==> accepted(session, Ok(params)) == Err::<
            (ParamsModel, SubagentModel),
            Seq<char>,
        >("invalid delegate params: task is empty"@),
        !blank(params.task) && (forall|i: int|
            0 <= i < session.subagents_state.subagents.len() ==> (
            #[trigger] session.subagents_state.subagents[i]).role != params.subagent)
            ==> accepted(session, Ok(params)) == Err::<(ParamsModel, SubagentModel), Seq<char>>(
            "subagent "@ + quoted(params.subagent) + " not found"@,
        ),
{
    let entries = session.subagents_state.subagents;
    blank_text_is_trimmed_away(params.task);
    if forall|i: int|
        0 <= i < session.subagents_state.subagents.len() ==> (
        #[trigger] session.subagents_state.subagents[i]).role != params.subagent {
        unknown_role_is_not_found(entries, params.subagent, entries.len() as int);
    }
}

/// What a watch makes of an event: the words of an error are kept, of either kind of error; the
/// events of tools are passed on as they are, marked with the subagent and the call; no event does
/// both, and every other event does nothing.
pub proof fn watch_takes_in_events_by_their_kind(watch: WatchModel, event: EventModel)
    ensures
        ({
            let after = watch_after(watch, event);
            let passed = marked(watch, event);
            &&& after.sub_id == watch.sub_id && after.tc_id == watch.tc_id
            &&& match event.kind {
                KindModel::Error(message) => after.had_error && after.error_msg == message,
                KindModel::RetryAvailable(message) => after.had_error && after.error_msg == message,
                _ => after == watch,
            }
            &&& passed_on(event.kind) <==> (event.kind is ToolCallStart || event.kind is ToolResult
                || event.kind is ToolError)
            &&& passed.kind == event.kind
            &&& passed.subagent == watch.sub_id
            &&& passed.subagent_id == watch.tc_id
        }),
{
}

/// A watch begins over its subagent and its call, without an error.
pub proof fn watch_begins_without_an_error(sub_id: Seq<char>, tc_id: Seq<char>)
    ensures
        unheard(sub_id, tc_id).sub_id == sub_id,
        unheard(sub_id, tc_id).tc_id == tc_id,
        !unheard(sub_id, tc_id).had_error,
        unheard(sub_id, tc_id).error_msg.len() == 0,
{
}

/// The conversation of a subagent that finished is what was captured of it, or what it was working
/// on where nothing was captured. Where no error was reported, the task has succeeded and its result
/// comes from that conversation; where one was, the task has failed and its result is the words of
/// the error. What was used and said is kept either way, under the subagent and the call.
pub proof fn finished_subagent_gives_its_result_or_its_error(
    watch: WatchModel,
    prompt_tokens: i32,
    completion_tokens: i32,
    cost: Cost,
    captured_msgs: Seq<MessageModel>,
    working_msgs: Seq<MessageModel>,
)
    ensures
        ({
            let exit = ExitModel::Finished {
                prompt_tokens,
                completion_tokens,
                cost,
                captured_msgs,
                working_msgs,
            };
            let said = if captured_msgs.len() > 0 {
                captured_msgs
            } else {
                working_msgs
            };
            let data = delegate_data(watch, exit);
            &&& delegate_failed(watch, exit) == watch.had_error
            &&& !watch.had_error ==> delegate_result(watch, exit) == parent_result(said)
            &&& watch.had_error && watch.error_msg.len() > 0 ==> delegate_result(watch, exit)
                == "(subagent error: "@ + watch.error_msg + ")"@
            &&& watch.had_error && watch.error_msg.len() == 0 ==> delegate_result(watch, exit)
                == "(subagent encountered an error)"@
            &&& data.prompt_tokens == prompt_tokens
            &&& data.completion_tokens == completion_tokens
            &&& data.cost == cost
            &&& data.msgs == said
            &&& data.subagent_id == watch.sub_id
            &&& data.tool_call_id == watch.tc_id
        }),
{
}

/// A subagent that came to no end of its own has failed, whatever it had reported, and there is
/// nothing to show of it; the reason of a breakdown is told.
pub proof fn unfinished_subagent_has_failed(watch: WatchModel, reason: Seq<char>)
    ensures
        ({
            let aborted = ExitModel::Aborted;
            let panicked = ExitModel::Panicked(reason);
            let data = delegate_data(watch, aborted);
            &&& delegate_failed(watch, aborted) && delegate_failed(watch, panicked)
            &&& delegate_result(watch, aborted) == "(subagent aborted)"@
            &&& delegate_result(watch, panicked) == "subagent task panicked: "@ + reason
            &&& delegate_data(watch, panicked) == data
            &&& data.prompt_tokens == 0 && data.completion_tokens == 0 && data.cost.bits == 0
            &&& data.msgs.len() == 0
            &&& data.subagent_id == watch.sub_id
            &&& data.tool_call_id == watch.tc_id
        }),
{
}

} // verus!
