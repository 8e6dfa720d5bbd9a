//! The messages of a conversation, the tool calls in them, and the definitions of tools.
//!
//! Each type has a model, its `deep_view`, in which strings are sequences of characters and lists
//! are sequences; a clone has the same model.

use vstd::prelude::*;

use crate::text::str_eq;

verus! {

/// Who a message is from.
#[derive(Clone, Copy, PartialEq, Eq, Structural, Debug)]
pub enum Role {
    System,
    User,
    Assistant,
    Tool,
}

/// One detail of a model's reasoning, as the JSON text in which the provider sent it.
#[derive(Debug)]
pub struct ReasoningDetail {
    pub json: String,
}

impl DeepView for ReasoningDetail {
    type V = Seq<char>;

    open spec fn deep_view(&self) -> Seq<char> {
        self.json@
    }
}

impl Clone for ReasoningDetail {
    fn clone(&self) -> (r: Self)
        ensures
            r.deep_view() == self.deep_view(),
    {
        ReasoningDetail { json: self.json.clone() }
    }
}

/// A call of a tool: its identity, the name of the tool and the arguments as JSON text.
#[verifier::ext_equal]
pub struct CallModel {
    pub id: Seq<char>,
    pub name: Seq<char>,
    pub arguments: Seq<char>,
}

/// A tool call in a message.
#[derive(Debug)]
pub struct ToolCall {
    pub id: String,
    pub name: String,
    pub arguments: String,
}

impl DeepView for ToolCall {
    type V = CallModel;

    open spec fn deep_view(&self) -> CallModel {
        CallModel { id: self.id@, name: self.name@, arguments: self.arguments@ }
    }
}

impl Clone for ToolCall {
    fn clone(&self) -> (r: Self)
        ensures
            r.deep_view() == self.deep_view(),
    {
        ToolCall {
            id: self.id.clone(),
            name: self.name.clone(),
            arguments: self.arguments.clone(),
        }
    }
}

/// A tool call as it came from the stream of a model's answer.
#[derive(Debug)]
pub struct StreamToolCall {
    pub id: String,
    pub name: String,
    pub arguments: String,
}

impl DeepView for StreamToolCall {
    type V = CallModel;

    open spec fn deep_view(&self) -> CallModel {
        CallModel { id: self.id@, name: self.name@, arguments: self.arguments@ }
    }
}

impl Clone for StreamToolCall {
    fn clone(&self) -> (r: Self)
        ensures
            r.deep_view() == self.deep_view(),
    {
        StreamToolCall {
            id: self.id.clone(),
            name: self.name.clone(),
            arguments: self.arguments.clone(),
        }
    }
}

impl StreamToolCall {
    /// The call as it stands in a message.
    pub fn to_tool_call(&self) -> (r: ToolCall)
        ensures
            r.deep_view() == self.deep_view(),
    {
        ToolCall {
            id: self.id.clone(),
            name: self.name.clone(),
            arguments: self.arguments.clone(),
        }
    }
}

/// The model of a message.
#[verifier::ext_equal]
pub struct MessageModel {
    pub role: Role,
    pub content: Seq<char>,
    pub reasoning_content: Seq<char>,
    pub reasoning_details: Seq<Seq<char>>,
    pub tool_calls: Seq<CallModel>,
    pub tool_call_id: Seq<char>,
    pub name: Seq<char>,
    pub tool_duration: Seq<char>,
}

/// A message of a conversation.
#[derive(Debug)]
pub struct Message {
    pub role: Role,
    pub content: String,
    pub reasoning_content: String,
    pub reasoning_details: Vec<ReasoningDetail>,
    pub tool_calls: Vec<ToolCall>,
    pub tool_call_id: String,
    pub name: String,
    pub tool_duration: String,
}

impl DeepView for Message {
    type V = MessageModel;

    open spec fn deep_view(&self) -> MessageModel {
        MessageModel {
            role: self.role,
            content: self.content@,
            reasoning_content: self.reasoning_content@,
            reasoning_details: self.reasoning_details.deep_view(),
            tool_calls: self.tool_calls.deep_view(),
            tool_call_id: self.tool_call_id@,
            name: self.name@,
            tool_duration: self.tool_duration@,
        }
    }
}

impl Clone for Message {
    fn clone(&self) -> (r: Self)
        ensures
            r.deep_view() == self.deep_view(),
    {
        let r = Message {
            role: self.role,
            content: self.content.clone(),
            reasoning_content: self.reasoning_content.clone(),
            reasoning_details: self.reasoning_details.clone(),
            tool_calls: self.tool_calls.clone(),
            tool_call_id: self.tool_call_id.clone(),
            name: self.name.clone(),
            tool_duration: self.tool_duration.clone(),
        };
        assert(r.reasoning_details.deep_view() =~= self.reasoning_details.deep_view());
        assert(r.tool_calls.deep_view() =~= self.tool_calls.deep_view());
        r
    }
}

/// The model of one property of an object schema.
#[verifier::ext_equal]
pub struct PropertyModel {
    pub name: Seq<char>,
    pub kind: Seq<char>,
    pub choices: Option<Seq<Seq<char>>>,
    pub description: Seq<char>,
}

/// One property of an object schema: its name, its JSON type, the values that it may have where
/// they are listed, and what it is for.
#[derive(Debug)]
pub struct Property {
    pub name: String,
    pub kind: String,
    pub choices: Option<Vec<String>>,
    pub description: String,
}

impl DeepView for Property {
    type V = PropertyModel;

    open spec fn deep_view(&self) -> PropertyModel {
        PropertyModel {
            name: self.name@,
            kind: self.kind@,
            choices: self.choices.deep_view(),
            description: self.description@,
        }
    }
}

impl Clone for Property {
    fn clone(&self) -> (r: Self)
        ensures
            r.deep_view() == self.deep_view(),
    {
        let choices = match &self.choices {
            Some(values) => {
                let copy = values.clone();
                assert(copy.deep_view() =~= values.deep_view());
                Some(copy)
            },
            None => None,
        };
        Property {
            name: self.name.clone(),
            kind: self.kind.clone(),
            choices,
            description: self.description.clone(),
        }
    }
}

/// The model of what a tool takes.
#[verifier::ext_equal]
pub enum ParametersModel {
    Object { properties: Seq<PropertyModel>, required: Seq<Seq<char>> },
    Json(Seq<char>),
}

/// What a tool takes: an object with these properties, of which the required ones must be given;
/// or whatever a schema says that is carried as JSON text.
#[derive(Debug)]
pub enum Parameters {
    Object { properties: Vec<Property>, required: Vec<String> },
    Json(String),
}

impl DeepView for Parameters {
    type V = ParametersModel;

    open spec fn deep_view(&self) -> ParametersModel {
        match self {
            Parameters::Object { properties, required } => ParametersModel::Object {
                properties: properties.deep_view(),
                required: required.deep_view(),
            },
            Parameters::Json(text) => ParametersModel::Json(text@),
        }
    }
}

impl Clone for Parameters {
    fn clone(&self) -> (r: Self)
        ensures
            r.deep_view() == self.deep_view(),
    {
        match self {
            Parameters::Object { properties, required } => {
                let p = properties.clone();
                let q = required.clone();
                assert(p.deep_view() =~= properties.deep_view());
                assert(q.deep_view() =~= required.deep_view());
                Parameters::Object { properties: p, required: q }
            },
            Parameters::Json(text) => Parameters::Json(text.clone()),
        }
    }
}

/// The model of a tool definition.
#[verifier::ext_equal]
pub struct ToolDefModel {
    pub def_type: Seq<char>,
    pub name: Seq<char>,
    pub description: Seq<char>,
    pub parameters: ParametersModel,
}

/// The function that a tool definition describes.
#[derive(Debug)]
pub struct ToolDefFunction {
    pub name: String,
    pub description: String,
    pub parameters: Parameters,
}

/// The definition of a tool, as a model is told of it.
#[derive(Debug)]
pub struct ToolDef {
    pub def_type: String,
    pub function: ToolDefFunction,
}

impl DeepView for ToolDef {
    type V = ToolDefModel;

    open spec fn deep_view(&self) -> ToolDefModel {
        ToolDefModel {
            def_type: self.def_type@,
            name: self.function.name@,
            description: self.function.description@,
            parameters: self.function.parameters.deep_view(),
        }
    }
}

impl Clone for ToolDef {
    fn clone(&self) -> (r: Self)
        ensures
            r.deep_view() == self.deep_view(),
    {
        ToolDef {
            def_type: self.def_type.clone(),
            function: ToolDefFunction {
                name: self.function.name.clone(),
                description: self.function.description.clone(),
                parameters: self.function.parameters.clone(),
            },
        }
    }
}

/// The tools that a session can call, as far as the session itself looks at them: their
/// definitions, in the order in which the model is told of them.
#[derive(Debug)]
pub struct Registry {
    pub defs: Vec<ToolDef>,
}

impl DeepView for Registry {
    type V = Seq<ToolDefModel>;

    open spec fn deep_view(&self) -> Seq<ToolDefModel> {
        self.defs.deep_view()
    }
}

impl Clone for Registry {
    fn clone(&self) -> (r: Self)
        ensures
            r.deep_view() == self.deep_view(),
    {
        let r = Registry { defs: self.defs.clone() };
        assert(r.defs.deep_view() =~= self.defs.deep_view());
        r
    }
}

/// The names of the tools that these definitions describe.
pub open spec fn tool_names(defs: Seq<ToolDefModel>) -> Seq<Seq<char>> {
    defs.map_values(|def: ToolDefModel| def.name)
}

impl Registry {
    /// The definitions of the tools.
    pub fn tool_defs(&self) -> (r: Vec<ToolDef>)
        ensures
            r.deep_view() == self.deep_view(),
    {
        let r = self.defs.clone();
        assert(r.deep_view() =~= self.defs.deep_view());
        r
    }

    /// The names of the tools.
    pub fn names(&self) -> (r: Vec<String>)
        ensures
            r.deep_view() == tool_names(self.deep_view()),
    {
        let mut r: Vec<String> = Vec::new();
        let mut i: usize = 0;
        while i < self.defs.len()
            invariant
                i <= self.defs@.len(),
                r@.len() == i,
                forall|j: int| 0 <= j < i ==> (#[trigger] r@[j])@ == self.defs@[j].function.name@,
            decreases self.defs@.len() - i,
        {
            r.push(self.defs[i].function.name.clone());
            i = i + 1;
        }
        assert(r.deep_view() =~= tool_names(self.deep_view()));
        r
    }

    /// Whether there is a tool of this name.
    pub fn contains(&self, name: &str) -> (r: bool)
        ensures
            r == tool_names(self.deep_view()).contains(name@),
    {
        let ghost names = tool_names(self.deep_view());
        let mut i: usize = 0;
        while i < self.defs.len()
            invariant
                i <= self.defs@.len(),
                names == tool_names(self.deep_view()),
                forall|j: int| 0 <= j < i ==> names[j] != name@,
            decreases self.defs@.len() - i,
        {
            assert(names[i as int] == self.defs@[i as int].function.name@);
            if str_eq(self.defs[i].function.name.as_str(), name) {
                return true;
            }
            i = i + 1;
        }
        false
    }
}

// ---------------------------------------------------------------------------------------------
// Laws

/// The models of messages and calls hold every field as it is.
pub proof fn messages_are_viewed_field_by_field(
    message: Message,
    call: ToolCall,
    stream: StreamToolCall,
    detail: ReasoningDetail,
)
    ensures
        ({
            let m = message.deep_view();
            &&& m.role == message.role
            &&& m.content == message.content@
            &&& m.reasoning_content == message.reasoning_content@
            &&& m.reasoning_details.len() == message.reasoning_details@.len()
            &&& forall|i: int|
                0 <= i < m.reasoning_details.len() ==> #[trigger] m.reasoning_details[i]
                    == message.reasoning_details@[i].json@
            &&& m.tool_calls.len() == message.tool_calls@.len()
            &&& forall|i: int|
                0 <= i < m.tool_calls.len() ==> {
                    let c = #[trigger] m.tool_calls[i];
                    &&& c.id == message.tool_calls@[i].id@
                    &&& c.name == message.tool_calls@[i].name@
                    &&& c.arguments == message.tool_calls@[i].arguments@
                }
            &&& m.tool_call_id == message.tool_call_id@
            &&& m.name == message.name@
            &&& m.tool_duration == message.tool_duration@
        }),
        call.deep_view().id == call.id@,
        call.deep_view().name == call.name@,
        call.deep_view().arguments == call.arguments@,
        stream.deep_view().id == stream.id@,
        stream.deep_view().name == stream.name@,
        stream.deep_view().arguments == stream.arguments@,
        detail.deep_view() == detail.json@,
{
}

/// The models of tool definitions hold every field as it is.
pub proof fn tools_are_viewed_field_by_field(
    property: Property,
    parameters: Parameters,
    def: ToolDef,
    registry: Registry,
)
    ensures
        ({
            let p = property.deep_view();
            &&& p.name == property.name@
            &&& p.kind == property.kind@
            &&& p.description == property.description@
            &&& match property.choices {
                None => p.choices is None,
                Some(choices) => {
                    &&& p.choices is Some
                    &&& p.choices.unwrap().len() == choices@.len()
                    &&& forall|i: int|
                        0 <= i < choices@.len() ==> #[trigger] p.choices.unwrap()[i]
                            == choices@[i]@
                },
            }
        }),
        match parameters {
            Parameters::Json(text) => parameters.deep_view() == ParametersModel::Json(text@),
            Parameters::Object { properties, required } => {
                &&& parameters.deep_view() is Object
                &&& parameters.deep_view()->properties.len() == properties@.len()
                &&& forall|i: int|
                    0 <= i < properties@.len()
                        ==> #[trigger] parameters.deep_view()->properties[i]
                        == properties@[i].deep_view()
                &&& parameters.deep_view()->required.len() == required@.len()
                &&& forall|i: int|
                    0 <= i < required@.len() ==> #[trigger] parameters.deep_view()->required[i]
                        == required@[i]@
            },
        },
        def.deep_view().def_type == def.def_type@,
        def.deep_view().name == def.function.name@,
        def.deep_view().description == def.function.description@,
        def.deep_view().parameters == def.function.parameters.deep_view(),
        registry.deep_view().len() == registry.defs@.len(),
        forall|i: int|
            0 <= i < registry.defs@.len() ==> #[trigger] registry.deep_view()[i]
                == registry.defs@[i].deep_view(),
{
}

/// The names of tools are those of their definitions, all of them, in their order.
pub proof fn tools_are_named_by_their_definitions(defs: Seq<ToolDefModel>, name: Seq<char>)
    ensures
        tool_names(defs).len() == defs.len(),
        forall|i: int| 0 <= i < defs.len() ==> #[trigger] tool_names(defs)[i] == defs[i].name,
        tool_names(defs).contains(name) <==> exists|i: int|
            0 <= i < defs.len() && (#[trigger] defs[i]).name == name,
{
    let names = tool_names(defs);
    if names.contains(name) {
        let i = choose|i: int| 0 <= i < names.len() && names[i] == name;
        assert(defs[i].name == name);
    }
    if exists|i: int| 0 <= i < defs.len() && (#[trigger] defs[i]).name == name {
        let i = choose|i: int| 0 <= i < defs.len() && (#[trigger] defs[i]).name == name;
        assert(names[i] == name);
    }
}

} // verus!
