//! Agent sessions: what a session holds, how it begins, and how it is set up.

use vstd::prelude::*;
use vstd::seq_lib::*;
use vstd::string::*;

use crate::event::Cost;
use crate::message::tool_names;
use crate::message::Message;
use crate::message::MessageModel;
use crate::message::Registry;
use crate::message::ToolDef;
use crate::message::ToolDefModel;
use crate::outside::is_date;
use crate::outside::is_time;
use crate::outside::local_date;
use crate::outside::utc_now;
use crate::outside::Timestamp;
use crate::roles::build_delegate_def;
use crate::roles::delegate_def;
use crate::roles::delegate_tool_name;
use crate::roles::distinct_ids;
use crate::roles::order_of_roles_is_unique;
use crate::roles::sort_roles;
use crate::roles::sorted_roles;
use crate::roles::sorting_keeps_the_roles;
use crate::roles::DelegateRole;
use crate::roles::RoleModel;
use crate::text::at_most;

verus! {

// ---------------------------------------------------------------------------------------------
// The stored session

/// The model of a stored session.
#[verifier::ext_equal]
pub struct SessionModel {
    pub id: Seq<char>,
    pub name: Seq<char>,
    pub hash: Seq<char>,
    pub named: bool,
    pub current_turn: Seq<char>,
    pub created_at: Timestamp,
    pub updated_at: Timestamp,
    pub turn_count: i32,
    pub prompt_tokens: i32,
    pub completion_tokens: i32,
    pub total_tokens: i32,
    pub context_tokens: i32,
    pub cost: Cost,
}

/// A session as it is stored: who it is, where it stands, and what it has used.
#[derive(Debug)]
pub struct Session {
    pub id: String,
    pub name: String,
    pub hash: String,
    pub named: bool,
    pub current_turn: String,
    pub created_at: Timestamp,
    pub updated_at: Timestamp,
    pub turn_count: i32,
    pub prompt_tokens: i32,
    pub completion_tokens: i32,
    pub total_tokens: i32,
    pub context_tokens: i32,
    pub cost: Cost,
}

impl DeepView for Session {
    type V = SessionModel;

    open spec fn deep_view(&self) -> SessionModel {
        SessionModel {
            id: self.id@,
            name: self.name@,
            hash: self.hash@,
            named: self.named,
            current_turn: self.current_turn@,
            created_at: self.created_at,
            updated_at: self.updated_at,
            turn_count: self.turn_count,
            prompt_tokens: self.prompt_tokens,
            completion_tokens: self.completion_tokens,
            total_tokens: self.total_tokens,
            context_tokens: self.context_tokens,
            cost: self.cost,
        }
    }
}

impl Clone for Session {
    fn clone(&self) -> (r: Self)
        ensures
            r.deep_view() == self.deep_view(),
    {
        Session {
            id: self.id.clone(),
            name: self.name.clone(),
            hash: self.hash.clone(),
            named: self.named,
            current_turn: self.current_turn.clone(),
            created_at: self.created_at,
            updated_at: self.updated_at,
            turn_count: self.turn_count,
            prompt_tokens: self.prompt_tokens,
            completion_tokens: self.completion_tokens,
            total_tokens: self.total_tokens,
            context_tokens: self.context_tokens,
            cost: self.cost,
        }
    }
}

/// A session of which nothing is known but its identity and when it was made.
pub open spec fn blank_session(
    id: Seq<char>,
    created_at: Timestamp,
    updated_at: Timestamp,
) -> SessionModel {
    SessionModel {
        id,
        name: seq![],
        hash: seq![],
        named: false,
        current_turn: seq![],
        created_at,
        updated_at,
        turn_count: 0,
        prompt_tokens: 0,
        completion_tokens: 0,
        total_tokens: 0,
        context_tokens: 0,
        cost: Cost { bits: 0 },
    }
}

// ---------------------------------------------------------------------------------------------
// Subagents

/// What a session looks at of the client through which it talks to a model.
#[derive(Clone, Copy, PartialEq, Eq, Structural, Debug)]
pub struct ClientInfo {
    pub context_window: i32,
}

/// The model of a subagent's definition.
#[verifier::ext_equal]
pub struct SubagentModel {
    pub id: Seq<char>,
    pub description: Seq<char>,
    pub client: ClientInfo,
    pub tools: Seq<ToolDefModel>,
    pub system_prompt: Seq<char>,
    pub model_name: Seq<char>,
}

/// The definition of a subagent.
#[derive(Debug)]
pub struct SubagentDef {
    pub id: String,
    pub description: String,
    pub client: ClientInfo,
    pub registry: Registry,
    pub system_prompt: String,
    pub model_name: String,
}

impl DeepView for SubagentDef {
    type V = SubagentModel;

    open spec fn deep_view(&self) -> SubagentModel {
        SubagentModel {
            id: self.id@,
            description: self.description@,
            client: self.client,
            tools: self.registry.deep_view(),
            system_prompt: self.system_prompt@,
            model_name: self.model_name@,
        }
    }
}

impl Clone for SubagentDef {
    fn clone(&self) -> (r: Self)
        ensures
            r.deep_view() == self.deep_view(),
    {
        SubagentDef {
            id: self.id.clone(),
            description: self.description.clone(),
            client: self.client,
            registry: self.registry.clone(),
            system_prompt: self.system_prompt.clone(),
            model_name: self.model_name.clone(),
        }
    }
}

/// The model of an entry among the subagents: the name of a role and the subagent that takes it.
#[verifier::ext_equal]
pub struct EntryModel {
    pub role: Seq<char>,
    pub def: SubagentModel,
}

/// An entry among the subagents: the name of a role and the subagent that takes it.
#[derive(Debug)]
pub struct SubagentEntry {
    pub role: String,
    pub def: SubagentDef,
}

impl DeepView for SubagentEntry {
    type V = EntryModel;

    open spec fn deep_view(&self) -> EntryModel {
        EntryModel { role: self.role@, def: self.def.deep_view() }
    }
}

impl Clone for SubagentEntry {
    fn clone(&self) -> (r: Self)
        ensures
            r.deep_view() == self.deep_view(),
    {
        SubagentEntry { role: self.role.clone(), def: self.def.clone() }
    }
}

/// Whether no two entries are for the same role.
pub open spec fn one_per_role(entries: Seq<EntryModel>) -> bool {
    forall|i: int, j: int|
        0 <= i < j < entries.len() ==> #[trigger] entries[i].role != #[trigger] entries[j].role
}

/// The role of an entry, as the delegate tool describes it.
pub open spec fn role_of(entry: EntryModel) -> RoleModel {
    RoleModel {
        id: entry.role,
        description: entry.def.description,
        tools: tool_names(entry.def.tools),
    }
}

/// The roles of these entries.
pub open spec fn roles_of(entries: Seq<EntryModel>) -> Seq<RoleModel> {
    entries.map_values(|entry: EntryModel| role_of(entry))
}

/// The model of a subagent's turn.
#[verifier::ext_equal]
pub struct TurnModel {
    pub msgs: Seq<MessageModel>,
    pub subagent: Seq<char>,
    pub tool_call_id: Seq<char>,
}

/// What a subagent has said in one delegated task, to be stored with the session's own turn.
#[derive(Debug)]
pub struct SubagentTurn {
    pub msgs: Vec<Message>,
    pub subagent: String,
    pub tool_call_id: String,
}

impl DeepView for SubagentTurn {
    type V = TurnModel;

    open spec fn deep_view(&self) -> TurnModel {
        TurnModel {
            msgs: self.msgs.deep_view(),
            subagent: self.subagent@,
            tool_call_id: self.tool_call_id@,
        }
    }
}

impl Clone for SubagentTurn {
    fn clone(&self) -> (r: Self)
        ensures
            r.deep_view() == self.deep_view(),
    {
        let r = SubagentTurn {
            msgs: self.msgs.clone(),
            subagent: self.subagent.clone(),
            tool_call_id: self.tool_call_id.clone(),
        };
        assert(r.msgs.deep_view() =~= self.msgs.deep_view());
        r
    }
}

/// The model of what a session knows of subagents.
#[verifier::ext_equal]
pub struct SubagentsModel {
    pub subagents: Seq<EntryModel>,
    pub subagent_turns: Seq<TurnModel>,
    pub is_subagent: bool,
}

/// What a session knows of subagents: those that it can delegate to, what they have said since the
/// last turn was stored, and whether it is one itself.
#[derive(Debug)]
pub struct SubagentState {
    pub subagents: Vec<SubagentEntry>,
    pub subagent_turns: Vec<SubagentTurn>,
    pub is_subagent: bool,
}

impl DeepView for SubagentState {
    type V = SubagentsModel;

    open spec fn deep_view(&self) -> SubagentsModel {
        SubagentsModel {
            subagents: self.subagents.deep_view(),
            subagent_turns: self.subagent_turns.deep_view(),
            is_subagent: self.is_subagent,
        }
    }
}

impl Clone for SubagentState {
    fn clone(&self) -> (r: Self)
        ensures
            r.deep_view() == self.deep_view(),
    {
        let r = SubagentState {
            subagents: self.subagents.clone(),
            subagent_turns: self.subagent_turns.clone(),
            is_subagent: self.is_subagent,
        };
        assert(r.subagents.deep_view() =~= self.subagents.deep_view());
        assert(r.subagent_turns.deep_view() =~= self.subagent_turns.deep_view());
        r
    }
}

/// Nothing known of subagents.
pub open spec fn no_subagents(is_subagent: bool) -> SubagentsModel {
    SubagentsModel { subagents: seq![], subagent_turns: seq![], is_subagent }
}

impl SubagentState {
    fn none(is_subagent: bool) -> (r: SubagentState)
        ensures
            r.deep_view() == no_subagents(is_subagent),
    {
        let r = SubagentState { subagents: Vec::new(), subagent_turns: Vec::new(), is_subagent };
        assert(r.subagents.deep_view() =~= seq![]);
        assert(r.subagent_turns.deep_view() =~= seq![]);
        r
    }
}

// ---------------------------------------------------------------------------------------------
// The running session

/// The model of a running session.
#[verifier::ext_equal]
pub struct AgentModel {
    pub sess: SessionModel,
    pub tools: Seq<ToolDefModel>,
    pub client: ClientInfo,
    pub system_msg: Seq<char>,
    pub cwd: Seq<char>,
    pub api_session_id: Seq<char>,
    pub cached_tool_defs: Seq<ToolDefModel>,
    pub working_messages: Seq<MessageModel>,
    pub subagents_state: SubagentsModel,
    pub last_prompt: Seq<char>,
    pub captured_msgs: Seq<MessageModel>,
}

/// A running session.
#[derive(Debug)]
pub struct AgentSession {
    pub sess: Session,
    pub tools: Registry,
    pub client: ClientInfo,
    pub system_msg: String,
    pub cwd: String,
    pub api_session_id: String,
    pub cached_tool_defs: Vec<ToolDef>,
    pub working_messages: Vec<Message>,
    pub subagents_state: SubagentState,
    pub last_prompt: String,
    pub captured_msgs: Vec<Message>,
}

impl DeepView for AgentSession {
    type V = AgentModel;

    open spec fn deep_view(&self) -> AgentModel {
        AgentModel {
            sess: self.sess.deep_view(),
            tools: self.tools.deep_view(),
            client: self.client,
            system_msg: self.system_msg@,
            cwd: self.cwd@,
            api_session_id: self.api_session_id@,
            cached_tool_defs: self.cached_tool_defs.deep_view(),
            working_messages: self.working_messages.deep_view(),
            subagents_state: self.subagents_state.deep_view(),
            last_prompt: self.last_prompt@,
            captured_msgs: self.captured_msgs.deep_view(),
        }
    }
}

impl Clone for AgentSession {
    fn clone(&self) -> (r: Self)
        ensures
            r.deep_view() == self.deep_view(),
    {
        let r = AgentSession {
            sess: self.sess.clone(),
            tools: self.tools.clone(),
            client: self.client,
            system_msg: self.system_msg.clone(),
            cwd: self.cwd.clone(),
            api_session_id: self.api_session_id.clone(),
            cached_tool_defs: self.cached_tool_defs.clone(),
            working_messages: self.working_messages.clone(),
            subagents_state: self.subagents_state.clone(),
            last_prompt: self.last_prompt.clone(),
            captured_msgs: self.captured_msgs.clone(),
        };
        assert(r.cached_tool_defs.deep_view() =~= self.cached_tool_defs.deep_view());
        assert(r.working_messages.deep_view() =~= self.working_messages.deep_view());
        assert(r.captured_msgs.deep_view() =~= self.captured_msgs.deep_view());
        r
    }
}

/// What a session says of its surroundings before its prompt.
pub open spec fn preamble(cwd: Seq<char>, date: Seq<char>) -> Seq<char> {
    "CWD: "@ + cwd + "\nDate: "@ + date + "\n\n"@
}

/// A session that begins on a date.
pub open spec fn begun(
    date: Seq<char>,
    sess: SessionModel,
    client: ClientInfo,
    tools: Seq<ToolDefModel>,
    system_prompt: Seq<char>,
    cwd: Seq<char>,
) -> AgentModel {
    AgentModel {
        sess,
        tools,
        client,
        system_msg: preamble(cwd, date) + system_prompt,
        cwd,
        api_session_id: sess.id,
        cached_tool_defs: tools,
        working_messages: seq![],
        subagents_state: no_subagents(false),
        last_prompt: seq![],
        captured_msgs: seq![],
    }
}

/// What a subagent is told after its own prompt.
pub open spec fn subagent_closing() -> Seq<char> {
    "\n\nYour final message is the parent's full tool result."@
}

/// A subagent's session, for the call `tool_call_id` of the session `sess_id`, that begins on a
/// date.
pub open spec fn begun_subagent(
    date: Seq<char>,
    created_at: Timestamp,
    updated_at: Timestamp,
    sess_id: Seq<char>,
    def: SubagentModel,
    cwd: Seq<char>,
    tool_call_id: Seq<char>,
) -> AgentModel {
    AgentModel {
        sess: blank_session(sess_id, created_at, updated_at),
        tools: def.tools,
        client: def.client,
        system_msg: preamble(cwd, date) + def.system_prompt + subagent_closing(),
        cwd,
        api_session_id: sess_id + ":sub:"@ + def.id + ":"@ + tool_call_id,
        cached_tool_defs: def.tools,
        working_messages: seq![],
        subagents_state: no_subagents(true),
        last_prompt: seq![],
        captured_msgs: seq![],
    }
}

fn write_preamble(cwd: &str, date: &str) -> (r: String)
    ensures
        r@ == preamble(cwd@, date@),
{
    let mut r = "CWD: ".to_owned();
    r.append(cwd);
    r.append("\nDate: ");
    r.append(date);
    r.append("\n\n");
    r
}

impl AgentSession {
    /// The subagents that the session can delegate to have each a role of their own.
    pub open spec fn wf(&self) -> bool {
        one_per_role(self.deep_view().subagents_state.subagents)
    }

    /// A session that begins today.
    pub fn new(
        sess: Session,
        client: ClientInfo,
        registry: Registry,
        system_prompt: String,
        cwd: String,
    ) -> (r: Self)
        ensures
            r.wf(),
            exists|date: Seq<char>|
                is_date(date) && r.deep_view() == #[trigger] begun(
                    date,
                    sess.deep_view(),
                    client,
                    registry.deep_view(),
                    system_prompt@,
                    cwd@,
                ),
    {
        let date = local_date();
        Self::new_on(date.as_str(), sess, client, registry, system_prompt, cwd)
    }

    /// A session that begins on `date`.
    pub fn new_on(
        date: &str,
        sess: Session,
        client: ClientInfo,
        registry: Registry,
        system_prompt: String,
        cwd: String,
    ) -> (r: Self)
        ensures
            r.wf(),
            r.deep_view() == begun(
                date@,
                sess.deep_view(),
                client,
                registry.deep_view(),
                system_prompt@,
                cwd@,
            ),
    {
        let mut system_msg = write_preamble(cwd.as_str(), date);
        system_msg.append(system_prompt.as_str());
        let api_session_id = sess.id.clone();
        let cached_tool_defs = registry.tool_defs();
        let r = AgentSession {
            sess,
            tools: registry,
            client,
            system_msg,
            cwd,
            api_session_id,
            cached_tool_defs,
            working_messages: Vec::new(),
            subagents_state: SubagentState::none(false),
            last_prompt: String::new(),
            captured_msgs: Vec::new(),
        };
        assert(r.working_messages.deep_view() =~= seq![]);
        assert(r.captured_msgs.deep_view() =~= seq![]);
        r
    }

    /// The session of a subagent, for the call `tool_call_id` of the session `sess_id`, that
    /// begins today.
    pub fn new_subagent(sess_id: String, def: &SubagentDef, cwd: String, tool_call_id: &str) -> (r:
        Self)
        ensures
            r.wf(),
            exists|date: Seq<char>, created_at: Timestamp, updated_at: Timestamp|
                is_date(date) && is_time(created_at) && is_time(updated_at) && r.deep_view()
                    == #[trigger] begun_subagent(
                    date,
                    created_at,
                    updated_at,
                    sess_id@,
                    def.deep_view(),
                    cwd@,
                    tool_call_id@,
                ),
    {
        let date = local_date();
        let created_at = utc_now();
        let updated_at = utc_now();
        Self::new_subagent_on(
            date.as_str(),
            created_at,
            updated_at,
            sess_id,
            def,
            cwd,
            tool_call_id,
        )
    }

    /// The session of a subagent that begins on `date`.
    pub fn new_subagent_on(
        date: &str,
        created_at: Timestamp,
        updated_at: Timestamp,
        sess_id: String,
        def: &SubagentDef,
        cwd: String,
        tool_call_id: &str,
    ) -> (r: Self)
        ensures
            r.wf(),
            r.deep_view() == begun_subagent(
                date@,
                created_at,
                updated_at,
                sess_id@,
                def.deep_view(),
                cwd@,
                tool_call_id@,
            ),
    {
        let mut system_msg = write_preamble(cwd.as_str(), date);
        system_msg.append(def.system_prompt.as_str());
        system_msg.append("\n\nYour final message is the parent's full tool result.");
        let mut api_session_id = sess_id.clone();
        api_session_id.append(":sub:");
        api_session_id.append(def.id.as_str());
        api_session_id.append(":");
        api_session_id.append(tool_call_id);
        let r = AgentSession {
            sess: Session {
                id: sess_id,
                name: String::new(),
                hash: String::new(),
                named: false,
                current_turn: String::new(),
                created_at,
                updated_at,
                turn_count: 0,
                prompt_tokens: 0,
                completion_tokens: 0,
                total_tokens: 0,
                context_tokens: 0,
                cost: Cost::zero(),
            },
            tools: def.registry.clone(),
            client: def.client,
            system_msg,
            cwd,
            api_session_id,
            cached_tool_defs: def.registry.tool_defs(),
            working_messages: Vec::new(),
            subagents_state: SubagentState::none(true),
            last_prompt: String::new(),
            captured_msgs: Vec::new(),
        };
        assert(r.working_messages.deep_view() =~= seq![]);
        assert(r.captured_msgs.deep_view() =~= seq![]);
        r
    }

    /// The stored session.
    pub fn sess(&self) -> (r: Session)
        ensures
            r.deep_view() == self.deep_view().sess,
    {
        self.sess.clone()
    }

    /// Takes over a stored session.
    pub fn reload_from(&mut self, sess: Session)
        ensures
            old(self).wf() ==> final(self).wf(),
            final(self).deep_view() == (AgentModel {
                sess: sess.deep_view(),
                ..old(self).deep_view()
            }),
    {
        self.sess = sess;
    }

    /// What the model is told first.
    pub fn system_prompt(&self) -> (r: &str)
        ensures
            r@ == self.deep_view().system_msg,
    {
        self.system_msg.as_str()
    }

    /// How many tokens the model can take in.
    pub fn context_window(&self) -> (r: i32)
        ensures
            r == self.deep_view().client.context_window,
    {
        self.client.context_window
    }

    /// How many tokens the conversation takes.
    pub fn context_tokens(&self) -> (r: i32)
        ensures
            r == self.deep_view().sess.context_tokens,
    {
        self.sess.context_tokens
    }

    /// The tools that the model is told of.
    pub fn tool_defs(&self) -> (r: Vec<ToolDef>)
        ensures
            r.deep_view() == self.deep_view().cached_tool_defs,
    {
        let r = self.cached_tool_defs.clone();
        assert(r.deep_view() =~= self.cached_tool_defs.deep_view());
        r
    }

    /// Talks to the model through another client from now on.
    pub fn set_client(&mut self, client: ClientInfo)
        ensures
            old(self).wf() ==> final(self).wf(),
            final(self).deep_view() == (AgentModel { client, ..old(self).deep_view() }),
    {
        self.client = client;
    }
}

// ---------------------------------------------------------------------------------------------
// Setting the subagents

/// The tools that a model is told of where it can delegate to these subagents: the tools of the
/// session and, where there are subagents, the delegate tool, with the roles in the order of
/// their names.
pub open spec fn told_tools(
    tools: Seq<ToolDefModel>,
    entries: Seq<EntryModel>,
    told: Seq<ToolDefModel>,
) -> bool {
    if entries.len() == 0 {
        told == tools
    } else {
        exists|roles: Seq<RoleModel>|
            sorted_roles(roles, roles_of(entries)) && told == tools.push(
                #[trigger] delegate_def(roles),
            )
    }
}

/// Whether `after` is the session `before` with these subagents in place of those it had.
pub open spec fn subagents_set(
    before: AgentModel,
    entries: Seq<EntryModel>,
    after: AgentModel,
) -> bool {
    &&& told_tools(before.tools, entries, after.cached_tool_defs)
    &&& after == (AgentModel {
        cached_tool_defs: after.cached_tool_defs,
        subagents_state: SubagentsModel { subagents: entries, ..before.subagents_state },
        ..before
    })
}

impl AgentSession {
    /// Sets the subagents that the session can delegate to, in place of those it had.
    pub fn set_subagents(&mut self, defs: Vec<SubagentEntry>)
        requires
            one_per_role(defs.deep_view()),
        ensures
            final(self).wf(),
            subagents_set(old(self).deep_view(), defs.deep_view(), final(self).deep_view()),
    {
        let ghost before = self.deep_view();
        let ghost entries = defs.deep_view();
        let mut told = self.tools.tool_defs();
        if defs.len() > 0 {
            let mut roles: Vec<DelegateRole> = Vec::new();
            let mut i: usize = 0;
            while i < defs.len()
                invariant
                    i <= defs@.len(),
                    entries == defs.deep_view(),
                    roles@.len() == i,
                    forall|j: int|
                        0 <= j < i ==> (#[trigger] roles@[j]).deep_view() == role_of(entries[j]),
                decreases defs@.len() - i,
            {
                assert(entries[i as int] == defs@[i as int].deep_view());
                roles.push(
                    DelegateRole {
                        id: defs[i].role.clone(),
                        description: defs[i].def.description.clone(),
                        tools: defs[i].def.registry.names(),
                    },
                );
                i = i + 1;
            }
            assert(roles.deep_view() =~= roles_of(entries));
            let sorted = sort_roles(roles);
            let ghost told_before = told.deep_view();
            told.push(build_delegate_def(&sorted));
            assert(told.deep_view() =~= told_before.push(delegate_def(sorted.deep_view())));
        }
        self.cached_tool_defs = told;
        self.subagents_state.subagents = defs;
    }

    /// Begins to answer a prompt: remembers it, and hands out the session that is to answer it.
    pub fn prompt_with_handle(&mut self, user_text: &str) -> (r: (AgentSession, String))
        ensures
            old(self).wf() ==> final(self).wf(),
            final(self).deep_view() == prompted(old(self).deep_view(), user_text@),
            r.0.deep_view() == final(self).deep_view(),
            r.1@ == user_text@,
    {
        self.last_prompt = user_text.to_owned();
        (self.clone(), user_text.to_owned())
    }

    /// Hands out the session that is to answer the last prompt once more.
    pub fn retry(&self) -> (r: Result<(AgentSession, String), String>)
        ensures
            match r {
                Ok((session, text)) => {
                    &&& retried(self.deep_view()) == Some(text@)
                    &&& session.deep_view() == self.deep_view()
                },
                Err(error) => {
                    &&& retried(self.deep_view()) is None
                    &&& error@ == "no prompt to retry"@
                },
            },
    {
        if self.last_prompt.as_str().is_empty() {
            return Err("no prompt to retry".to_owned());
        }
        Ok((self.clone(), self.last_prompt.clone()))
    }
}

/// A session that was asked something.
pub open spec fn prompted(session: AgentModel, text: Seq<char>) -> AgentModel {
    AgentModel { last_prompt: text, ..session }
}

/// What a session is asked once more: its last prompt, where it has one.
pub open spec fn retried(session: AgentModel) -> Option<Seq<char>> {
    if session.last_prompt.len() == 0 {
        None
    } else {
        Some(session.last_prompt)
    }
}

// ---------------------------------------------------------------------------------------------
// Laws

/// A session that was asked something retries just that, whatever it was asked before; asked an
/// empty text, it has nothing to retry.
pub proof fn retry_repeats_the_last_prompt(session: AgentModel, earlier: Seq<char>, text: Seq<char>)
    ensures
        retried(prompted(prompted(session, earlier), text)) == if text.len() == 0 {
            None
        } else {
            Some(text)
        },
{
}

/// Subagents that are set take the place of those that were set before.
pub proof fn subagents_are_replaced(
    before: AgentModel,
    first: Seq<EntryModel>,
    between: AgentModel,
    second: Seq<EntryModel>,
    after: AgentModel,
)
    requires
        subagents_set(before, first, between),
        subagents_set(between, second, after),
    ensures
        subagents_set(before, second, after),
{
}

/// How many of these definitions are of a tool of this name.
pub open spec fn count_named(defs: Seq<ToolDefModel>, name: Seq<char>) -> nat
    decreases defs.len(),
{
    if defs.len() == 0 {
        0
    } else {
        count_named(defs.drop_last(), name) + if defs.last().name == name {
            1nat
        } else {
            0
        }
    }
}

/// However often the subagents are set, the model is told of one delegate tool beside the
/// session's own tools where there are subagents, and of none where there are none.
pub proof fn delegate_tool_is_not_duplicated(
    before: AgentModel,
    entries: Seq<EntryModel>,
    after: AgentModel,
)
    requires
        subagents_set(before, entries, after),
    ensures
        count_named(after.cached_tool_defs, delegate_tool_name()) == count_named(
            before.tools,
            delegate_tool_name(),
        ) + if entries.len() == 0 {
            0nat
        } else {
            1
        },
{
    if entries.len() > 0 {
        let roles = choose|roles: Seq<RoleModel>|
            sorted_roles(roles, roles_of(entries)) && after.cached_tool_defs == before.tools.push(
                #[trigger] delegate_def(roles),
            );
        assert(before.tools.push(delegate_def(roles)).drop_last() =~= before.tools);
    }
}

proof fn same_entries_have_same_roles(a: Seq<EntryModel>, b: Seq<EntryModel>)
    requires
        a.to_multiset() == b.to_multiset(),
    ensures
        roles_of(a).to_multiset() == roles_of(b).to_multiset(),
    decreases a.len(),
{
    to_multiset_len(a);
    to_multiset_len(b);
    if a.len() == 0 {
        assert(a =~= b);
    } else {
        let x = a[0];
        to_multiset_contains(a, x);
        to_multiset_contains(b, x);
        assert(a.contains(x));
        let j = choose|j: int| 0 <= j < b.len() && b[j] == x;
        to_multiset_remove(a, 0);
        to_multiset_remove(b, j);
        same_entries_have_same_roles(a.remove(0), b.remove(j));
        let p = roles_of(a);
        let q = roles_of(b);
        assert(roles_of(a.remove(0)) =~= p.remove(0));
        assert(roles_of(b.remove(j)) =~= q.remove(j));
        to_multiset_remove(p, 0);
        to_multiset_remove(q, j);
        to_multiset_contains(p, p[0]);
        to_multiset_contains(q, q[j]);
        assert(p.contains(p[0]) && q.contains(q[j]));
        assert(p.to_multiset() =~= p.to_multiset().remove(role_of(x)).insert(role_of(x)));
        assert(q.to_multiset() =~= q.to_multiset().remove(role_of(x)).insert(role_of(x)));
    }
}

/// What the model is told does not depend on the order in which the subagents are listed.
pub proof fn told_tools_do_not_depend_on_order(
    before: AgentModel,
    a: Seq<EntryModel>,
    after_a: AgentModel,
    b: Seq<EntryModel>,
    after_b: AgentModel,
)
    requires
        one_per_role(a),
        a.to_multiset() == b.to_multiset(),
        subagents_set(before, a, after_a),
        subagents_set(before, b, after_b),
    ensures
        after_a.cached_tool_defs == after_b.cached_tool_defs,
{
    to_multiset_len(a);
    to_multiset_len(b);
    if a.len() > 0 {
        let p = choose|roles: Seq<RoleModel>|
            sorted_roles(roles, roles_of(a)) && after_a.cached_tool_defs == before.tools.push(
                #[trigger] delegate_def(roles),
            );
        let q = choose|roles: Seq<RoleModel>|
            sorted_roles(roles, roles_of(b)) && after_b.cached_tool_defs == before.tools.push(
                #[trigger] delegate_def(roles),
            );
        same_entries_have_same_roles(a, b);
        assert(distinct_ids(roles_of(a))) by {
            assert forall|i: int, j: int| 0 <= i < j < roles_of(a).len() implies #[trigger] roles_of(
                a,
            )[i].id != #[trigger] roles_of(a)[j].id by {
                assert(a[i].role != a[j].role);
            }
        }
        order_of_roles_is_unique(p, q, roles_of(a), roles_of(b));
    }
}

/// The models of sessions and subagents hold every field as it is.
pub proof fn sessions_are_viewed_field_by_field(
    sess: Session,
    def: SubagentDef,
    entry: SubagentEntry,
    turn: SubagentTurn,
)
    ensures
        ({
            let s = sess.deep_view();
            &&& s.id == sess.id@ && s.name == sess.name@ && s.hash == sess.hash@
            &&& s.named == sess.named && s.current_turn == sess.current_turn@
            &&& s.created_at == sess.created_at && s.updated_at == sess.updated_at
            &&& s.turn_count == sess.turn_count && s.prompt_tokens == sess.prompt_tokens
            &&& s.completion_tokens == sess.completion_tokens
            &&& s.total_tokens == sess.total_tokens && s.context_tokens == sess.context_tokens
            &&& s.cost == sess.cost
        }),
        ({
            let d = def.deep_view();
            &&& d.id == def.id@ && d.description == def.description@ && d.client == def.client
            &&& d.tools == def.registry.deep_view() && d.system_prompt == def.system_prompt@
            &&& d.model_name == def.model_name@
        }),
        entry.deep_view().role == entry.role@,
        entry.deep_view().def == entry.def.deep_view(),
        turn.deep_view().msgs.len() == turn.msgs@.len(),
        forall|i: int|
            0 <= i < turn.msgs@.len() ==> #[trigger] turn.deep_view().msgs[i]
                == turn.msgs@[i].deep_view(),
        turn.deep_view().subagent == turn.subagent@,
        turn.deep_view().tool_call_id == turn.tool_call_id@,
{
}

/// The model of a running session holds every field as it is.
pub proof fn running_sessions_are_viewed_field_by_field(agent: AgentSession)
    ensures
        ({
            let a = agent.deep_view();
            &&& a.sess == agent.sess.deep_view()
            &&& a.tools == agent.tools.deep_view()
            &&& a.client == agent.client
            &&& a.system_msg == agent.system_msg@
            &&& a.cwd == agent.cwd@
            &&& a.api_session_id == agent.api_session_id@
            &&& a.last_prompt == agent.last_prompt@
            &&& a.cached_tool_defs.len() == agent.cached_tool_defs@.len()
            &&& forall|i: int|
                0 <= i < a.cached_tool_defs.len() ==> #[trigger] a.cached_tool_defs[i]
                    == agent.cached_tool_defs@[i].deep_view()
            &&& a.working_messages.len() == agent.working_messages@.len()
            &&& forall|i: int|
                0 <= i < a.working_messages.len() ==> #[trigger] a.working_messages[i]
                    == agent.working_messages@[i].deep_view()
            &&& a.captured_msgs.len() == agent.captured_msgs@.len()
            &&& forall|i: int|
                0 <= i < a.captured_msgs.len() ==> #[trigger] a.captured_msgs[i]
                    == agent.captured_msgs@[i].deep_view()
            &&& a.subagents_state.is_subagent == agent.subagents_state.is_subagent
            &&& a.subagents_state.subagents.len() == agent.subagents_state.subagents@.len()
            &&& forall|i: int|
                0 <= i < a.subagents_state.subagents.len()
                    ==> #[trigger] a.subagents_state.subagents[i]
                    == agent.subagents_state.subagents@[i].deep_view()
            &&& a.subagents_state.subagent_turns.len()
                == agent.subagents_state.subagent_turns@.len()
            &&& forall|i: int|
                0 <= i < a.subagents_state.subagent_turns.len()
                    ==> #[trigger] a.subagents_state.subagent_turns[i]
                    == agent.subagents_state.subagent_turns@[i].deep_view()
        }),
{
}

/// A session begins with an empty conversation, with what it was given, and with its surroundings
/// and the whole of its prompt as what the model is told first.
pub proof fn session_begins_with_what_it_was_given(
    date: Seq<char>,
    sess: SessionModel,
    client: ClientInfo,
    tools: Seq<ToolDefModel>,
    system_prompt: Seq<char>,
    cwd: Seq<char>,
)
    ensures
        ({
            let s = begun(date, sess, client, tools, system_prompt, cwd);
            &&& s.system_msg == "CWD: "@ + cwd + "\nDate: "@ + date + "\n\n"@ + system_prompt
            &&& s.sess == sess && s.client == client && s.cwd == cwd
            &&& s.api_session_id == sess.id
            &&& s.tools == tools && s.cached_tool_defs == tools
            &&& s.working_messages.len() == 0 && s.captured_msgs.len() == 0
            &&& s.last_prompt.len() == 0
            &&& s.subagents_state.subagents.len() == 0
            &&& s.subagents_state.subagent_turns.len() == 0
            &&& !s.subagents_state.is_subagent
        }),
{
}

/// A subagent's history is its own: it begins with an empty conversation and nothing used, with the
/// tools and the client of its definition, and is told of its surroundings, its own prompt and that
/// its final message is the result. Its identity names the session, the subagent and the call.
pub proof fn subagent_begins_with_its_own_history(
    date: Seq<char>,
    created_at: Timestamp,
    updated_at: Timestamp,
    sess_id: Seq<char>,
    def: SubagentModel,
    cwd: Seq<char>,
    tool_call_id: Seq<char>,
)
    ensures
        ({
            let s = begun_subagent(date, created_at, updated_at, sess_id, def, cwd, tool_call_id);
            &&& s.system_msg == "CWD: "@ + cwd + "\nDate: "@ + date + "\n\n"@ + def.system_prompt
                + "\n\nYour final message is the parent's full tool result."@
            &&& s.api_session_id == sess_id + ":sub:"@ + def.id + ":"@ + tool_call_id
            &&& s.client == def.client && s.cwd == cwd
            &&& s.tools == def.tools && s.cached_tool_defs == def.tools
            &&& s.working_messages.len() == 0 && s.captured_msgs.len() == 0
            &&& s.last_prompt.len() == 0
            &&& s.subagents_state.subagents.len() == 0
            &&& s.subagents_state.subagent_turns.len() == 0
            &&& s.subagents_state.is_subagent
            &&& s.sess.id == sess_id && s.sess.name.len() == 0 && s.sess.hash.len() == 0
            &&& !s.sess.named && s.sess.current_turn.len() == 0
            &&& s.sess.created_at == created_at && s.sess.updated_at == updated_at
            &&& s.sess.turn_count == 0 && s.sess.prompt_tokens == 0
            &&& s.sess.completion_tokens == 0 && s.sess.total_tokens == 0
            &&& s.sess.context_tokens == 0 && s.sess.cost.bits == 0
        }),
{
}

/// Setting subagents sets them as they are, tells the model of the session's own tools as they are,
/// and of one tool more where there are subagents, and leaves everything else as it was.
pub proof fn setting_subagents_changes_nothing_else(
    before: AgentModel,
    entries: Seq<EntryModel>,
    after: AgentModel,
)
    requires
        subagents_set(before, entries, after),
    ensures
        after.subagents_state.subagents == entries,
        entries.len() == 0 ==> after.cached_tool_defs == before.tools,
        entries.len() > 0 ==> {
            &&& after.cached_tool_defs.len() == before.tools.len() + 1
            &&& after.cached_tool_defs.drop_last() == before.tools
            &&& after.cached_tool_defs.last().name == "delegate"@
        },
        after.sess == before.sess,
        after.tools == before.tools,
        after.client == before.client,
        after.system_msg == before.system_msg,
        after.cwd == before.cwd,
        after.api_session_id == before.api_session_id,
        after.working_messages == before.working_messages,
        after.subagents_state.subagent_turns == before.subagents_state.subagent_turns,
        after.subagents_state.is_subagent == before.subagents_state.is_subagent,
        after.last_prompt == before.last_prompt,
        after.captured_msgs == before.captured_msgs,
{
    if entries.len() > 0 {
        let roles = choose|roles: Seq<RoleModel>|
            sorted_roles(roles, roles_of(entries)) && after.cached_tool_defs == before.tools.push(
                #[trigger] delegate_def(roles),
            );
        assert(before.tools.push(delegate_def(roles)).drop_last() =~= before.tools);
    }
}

/// Where subagents are set, the model is told of each: a role that stands for it, with the name that
/// it is set under, the description of its definition and the names of its tools, is among those
/// that the delegate tool is made of, and so is no other; they stand in the order of their names.
pub proof fn model_is_told_of_every_subagent(
    before: AgentModel,
    entries: Seq<EntryModel>,
    after: AgentModel,
)
    requires
        subagents_set(before, entries, after),
        entries.len() > 0,
    ensures
        exists|roles: Seq<RoleModel>|
            {
                &&& after.cached_tool_defs.last() == #[trigger] delegate_def(roles)
                &&& roles.len() == entries.len()
                &&& forall|i: int|
                    0 <= i < entries.len() ==> roles.contains(
                        RoleModel {
                            id: (#[trigger] entries[i]).role,
                            description: entries[i].def.description,
                            tools: Seq::new(
                                entries[i].def.tools.len(),
                                |t: int| entries[i].def.tools[t].name,
                            ),
                        },
                    )
                &&& forall|i: int, j: int|
                    0 <= i < j < roles.len() ==> at_most(
                        #[trigger] roles[i].id,
                        #[trigger] roles[j].id,
                    )
            },
{
    let roles = choose|roles: Seq<RoleModel>|
        sorted_roles(roles, roles_of(entries)) && after.cached_tool_defs == before.tools.push(
            #[trigger] delegate_def(roles),
        );
    let all = roles_of(entries);
    sorting_keeps_the_roles(roles, all);
    assert(after.cached_tool_defs.last() == delegate_def(roles));
    assert forall|i: int| 0 <= i < entries.len() implies roles.contains(
        RoleModel {
            id: (#[trigger] entries[i]).role,
            description: entries[i].def.description,
            tools: Seq::new(entries[i].def.tools.len(), |t: int| entries[i].def.tools[t].name),
        },
    ) by {
        let role = RoleModel {
            id: entries[i].role,
            description: entries[i].def.description,
            tools: Seq::new(entries[i].def.tools.len(), |t: int| entries[i].def.tools[t].name),
        };
        assert(role.tools =~= tool_names(entries[i].def.tools));
        assert(all[i] == role);
        assert(all.contains(role));
    }
}

/// To be asked something changes nothing about a session but what it would retry.
pub proof fn prompt_is_all_that_is_remembered(session: AgentModel, text: Seq<char>)
    ensures
        ({
            let after = prompted(session, text);
            &&& after.last_prompt == text
            &&& after == (AgentModel { last_prompt: after.last_prompt, ..session })
        }),
        retried(session) == if session.last_prompt.len() == 0 {
            None
        } else {
            Some(session.last_prompt)
        },
{
}

} // verus!
