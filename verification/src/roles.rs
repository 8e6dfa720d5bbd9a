//! The `delegate` tool: how a model is told of the subagents that it can hand tasks to.

use vstd::prelude::*;
use vstd::seq_lib::*;
use vstd::string::*;

use crate::message::Parameters;
use crate::message::ParametersModel;
use crate::message::Property;
use crate::message::PropertyModel;
use crate::message::ToolDef;
use crate::message::ToolDefFunction;
use crate::message::ToolDefModel;
use crate::text::at_most;
use crate::text::at_most_antisymmetric;
use crate::text::at_most_total;
use crate::text::at_most_transitive;
use crate::text::join;
use crate::text::join_strings;
use crate::text::str_at_most;

verus! {

/// The name of the tool that hands a task to a subagent.
pub open spec fn delegate_tool_name() -> Seq<char> {
    "delegate"@
}

/// The model of a role.
#[verifier::ext_equal]
pub struct RoleModel {
    pub id: Seq<char>,
    pub description: Seq<char>,
    pub tools: Seq<Seq<char>>,
}

/// A role that a subagent can take: its name, what it is for, and the tools that it has.
#[derive(Debug)]
pub struct DelegateRole {
    pub id: String,
    pub description: String,
    pub tools: Vec<String>,
}

impl DeepView for DelegateRole {
    type V = RoleModel;

    open spec fn deep_view(&self) -> RoleModel {
        RoleModel {
            id: self.id@,
            description: self.description@,
            tools: self.tools.deep_view(),
        }
    }
}

/// The line that describes a role: its name, and what it is for and its tools, where there is
/// something to say.
pub open spec fn role_line(role: RoleModel) -> Seq<char> {
    "\n- "@ + role.id + (if role.description.len() == 0 {
        seq![]
    } else {
        " — "@ + role.description
    }) + (if role.tools.len() == 0 {
        seq![]
    } else {
        " ["@ + join(role.tools, ", "@) + "]"@
    })
}

/// The lines of the first `n` roles.
pub open spec fn role_lines(roles: Seq<RoleModel>, n: int) -> Seq<char>
    decreases n,
{
    if n <= 0 {
        seq![]
    } else {
        role_lines(roles, n - 1) + role_line(roles[n - 1])
    }
}

/// The description of the delegate tool.
pub open spec fn delegate_description(roles: Seq<RoleModel>) -> Seq<char> {
    "Hand off one scoped job to a subagent. Isolated history; no nested delegate. Only the final message returns. Fan out independent calls. Not for one trivial tool call.\n\nRoles:"@
        + role_lines(roles, roles.len() as int)
}

/// The names of these roles.
pub open spec fn role_ids(roles: Seq<RoleModel>) -> Seq<Seq<char>> {
    roles.map_values(|role: RoleModel| role.id)
}

/// What the delegate tool takes: one of the roles, a task, and a context that may be left out.
pub open spec fn delegate_parameters(roles: Seq<RoleModel>) -> ParametersModel {
    ParametersModel::Object {
        properties: seq![
            PropertyModel {
                name: "subagent"@,
                kind: "string"@,
                choices: Some(role_ids(roles)),
                description: "Role id"@,
            },
            PropertyModel {
                name: "task"@,
                kind: "string"@,
                choices: None,
                description: "One goal, success check, paths, constraints. Prefer paths over pastes."@,
            },
            PropertyModel {
                name: "context"@,
                kind: "string"@,
                choices: None,
                description: "Optional bulk (snippets, logs). Prefer paths when disk is readable."@,
            },
        ],
        required: seq!["subagent"@, "task"@],
    }
}

/// The definition of the delegate tool for these roles.
pub open spec fn delegate_def(roles: Seq<RoleModel>) -> ToolDefModel {
    ToolDefModel {
        def_type: "function"@,
        name: delegate_tool_name(),
        description: delegate_description(roles),
        parameters: delegate_parameters(roles),
    }
}

fn push_role(desc: &mut String, role: &DelegateRole)
    ensures
        final(desc)@ == old(desc)@ + role_line(role.deep_view()),
{
    desc.append("\n- ");
    desc.append(role.id.as_str());
    let ghost named = desc@;
    if !role.description.as_str().is_empty() {
        desc.append(" — ");
        desc.append(role.description.as_str());
    }
    let ghost described = desc@;
    assert(described =~= named + (if role.description@.len() == 0 {
        seq![]
    } else {
        " — "@ + role.description@
    }));
    if role.tools.len() > 0 {
        desc.append(" [");
        desc.append(join_strings(&role.tools, ", ").as_str());
        desc.append("]");
    }
    assert(desc@ =~= described + (if role.tools.deep_view().len() == 0 {
        seq![]
    } else {
        " ["@ + join(role.tools.deep_view(), ", "@) + "]"@
    }));
    assert(desc@ =~= old(desc)@ + role_line(role.deep_view()));
}

/// The definition of the delegate tool for these roles.
pub fn build_delegate_def(roles: &Vec<DelegateRole>) -> (r: ToolDef)
    ensures
        r.deep_view() == delegate_def(roles.deep_view()),
{
    let ghost model = roles.deep_view();
    let mut names: Vec<String> = Vec::new();
    let mut tool_desc =
        "Hand off one scoped job to a subagent. Isolated history; no nested delegate. Only the final message returns. Fan out independent calls. Not for one trivial tool call.\n\nRoles:".to_owned();
    let ghost opening = tool_desc@;
    let mut i: usize = 0;
    assert(tool_desc@ =~= opening + role_lines(model, 0));
    while i < roles.len()
        invariant
            i <= roles@.len(),
            model == roles.deep_view(),
            names@.len() == i,
            forall|j: int| 0 <= j < i ==> (#[trigger] names@[j])@ == model[j].id,
            tool_desc@ == opening + role_lines(model, i as int),
        decreases roles@.len() - i,
    {
        assert(model[i as int] == roles@[i as int].deep_view());
        names.push(roles[i].id.clone());
        push_role(&mut tool_desc, &roles[i]);
        assert(tool_desc@ =~= opening + role_lines(model, i + 1));
        i = i + 1;
    }
    assert(names.deep_view() =~= role_ids(model));
    let mut properties: Vec<Property> = Vec::new();
    properties.push(
        Property {
            name: "subagent".to_owned(),
            kind: "string".to_owned(),
            choices: Some(names),
            description: "Role id".to_owned(),
        },
    );
    properties.push(
        Property {
            name: "task".to_owned(),
            kind: "string".to_owned(),
            choices: None,
            description: "One goal, success check, paths, constraints. Prefer paths over pastes.".to_owned(),
        },
    );
    properties.push(
        Property {
            name: "context".to_owned(),
            kind: "string".to_owned(),
            choices: None,
            description: "Optional bulk (snippets, logs). Prefer paths when disk is readable.".to_owned(),
        },
    );
    let mut required: Vec<String> = Vec::new();
    required.push("subagent".to_owned());
    required.push("task".to_owned());
    proof {
        let made = ParametersModel::Object {
            properties: properties.deep_view(),
            required: required.deep_view(),
        };
        assert(made->properties =~= delegate_parameters(model)->properties);
        assert(made->required =~= delegate_parameters(model)->required);
    }
    ToolDef {
        def_type: "function".to_owned(),
        function: ToolDefFunction {
            name: "delegate".to_owned(),
            description: tool_desc,
            parameters: Parameters::Object { properties, required },
        },
    }
}

// ---------------------------------------------------------------------------------------------
// The order of roles

/// Whether the names of these roles are in order.
pub open spec fn in_order(roles: Seq<RoleModel>) -> bool {
    forall|i: int, j: int|
        0 <= i <= j < roles.len() ==> at_most(#[trigger] roles[i].id, #[trigger] roles[j].id)
}

/// Whether no two of these roles have the same name.
pub open spec fn distinct_ids(roles: Seq<RoleModel>) -> bool {
    forall|i: int, j: int|
        0 <= i < j < roles.len() ==> #[trigger] roles[i].id != #[trigger] roles[j].id
}

/// Whether `sorted` holds the roles of `roles`, in the order of their names.
pub open spec fn sorted_roles(sorted: Seq<RoleModel>, roles: Seq<RoleModel>) -> bool {
    in_order(sorted) && sorted.to_multiset() == roles.to_multiset()
}

proof fn at_most_reflexive(a: Seq<char>)
    ensures
        at_most(a, a),
{
    at_most_total(a, a);
}

/// Puts one more role in its place.
fn insert_role(sorted: &mut Vec<DelegateRole>, role: DelegateRole)
    requires
        in_order(old(sorted).deep_view()),
    ensures
        in_order(final(sorted).deep_view()),
        final(sorted).deep_view().to_multiset() == old(sorted).deep_view().to_multiset().insert(
            role.deep_view(),
        ),
{
    let ghost before = sorted.deep_view();
    let ghost new = role.deep_view();
    let mut p: usize = 0;
    while p < sorted.len() && str_at_most(sorted[p].id.as_str(), role.id.as_str())
        invariant
            p <= sorted@.len(),
            before == sorted.deep_view(),
            new == role.deep_view(),
            p > 0 ==> at_most(before[p - 1].id, new.id),
        decreases sorted@.len() - p,
    {
        assert(before[p as int] == sorted@[p as int].deep_view());
        p = p + 1;
    }
    if p < sorted.len() {
        assert(before[p as int] == sorted@[p as int].deep_view());
        proof {
            at_most_total(before[p as int].id, new.id);
        }
    }
    sorted.insert(p, role);
    let ghost after = sorted.deep_view();
    assert(after =~= before.insert(p as int, new));
    proof {
        to_multiset_insert(before, p as int, new);
        assert forall|i: int, j: int| 0 <= i <= j < after.len() implies at_most(
            #[trigger] after[i].id,
            #[trigger] after[j].id,
        ) by {
            at_most_reflexive(new.id);
            if i == p && j > p {
                assert(after[j] == before[j - 1]);
                assert(at_most(before[p as int].id, before[j - 1].id));
                at_most_transitive(new.id, before[p as int].id, before[j - 1].id);
            } else if j == p && i < p {
                assert(after[i] == before[i]);
                assert(at_most(before[i].id, before[p - 1].id));
                at_most_transitive(before[i].id, before[p - 1].id, new.id);
            } else if i < p && j > p {
                assert(after[i] == before[i] && after[j] == before[j - 1]);
            } else if i < p {
                assert(after[i] == before[i] && after[j] == before[j]);
            } else if i > p {
                assert(after[i] == before[i - 1] && after[j] == before[j - 1]);
            }
        }
    }
}

/// The roles in the order of their names.
pub fn sort_roles(roles: Vec<DelegateRole>) -> (r: Vec<DelegateRole>)
    ensures
        sorted_roles(r.deep_view(), roles.deep_view()),
{
    let ghost model = roles.deep_view();
    let mut rest = roles;
    let mut r: Vec<DelegateRole> = Vec::new();
    proof {
        to_multiset_len(r.deep_view());
        assert(r.deep_view().to_multiset().add(model.to_multiset()) =~= model.to_multiset());
    }
    loop
        invariant
            in_order(r.deep_view()),
            r.deep_view().to_multiset().add(rest.deep_view().to_multiset())
                == model.to_multiset(),
        ensures
            in_order(r.deep_view()),
            r.deep_view().to_multiset() == model.to_multiset(),
        decreases rest@.len(),
    {
        let ghost all = rest.deep_view();
        let ghost done = r.deep_view();
        match rest.pop() {
            None => {
                proof {
                    assert(all =~= seq![]);
                    to_multiset_len(all);
                    assert(done.to_multiset().add(all.to_multiset()) =~= done.to_multiset());
                }
                break;
            },
            Some(role) => {
                proof {
                    assert(all =~= rest.deep_view().push(role.deep_view()));
                    to_multiset_build(rest.deep_view(), role.deep_view());
                }
                insert_role(&mut r, role);
                assert(r.deep_view().to_multiset().add(rest.deep_view().to_multiset())
                    =~= done.to_multiset().add(all.to_multiset()));
            },
        }
    }
    r
}

// ---------------------------------------------------------------------------------------------
// Laws

spec fn id_determines_role(roles: Seq<RoleModel>) -> bool {
    forall|i: int, j: int|
        0 <= i < roles.len() && 0 <= j < roles.len() && (#[trigger] roles[i]).id == (
        #[trigger] roles[j]).id ==> roles[i] == roles[j]
}

proof fn ordered_lists_agree(a: Seq<RoleModel>, b: Seq<RoleModel>)
    requires
        in_order(a),
        in_order(b),
        a.to_multiset() == b.to_multiset(),
        id_determines_role(a),
    ensures
        a == b,
    decreases a.len(),
{
    to_multiset_len(a);
    to_multiset_len(b);
    if a.len() == 0 {
        assert(a =~= b);
    } else {
        to_multiset_contains(a, a[0]);
        to_multiset_contains(b, a[0]);
        to_multiset_contains(a, b[0]);
        to_multiset_contains(b, b[0]);
        let j = choose|j: int| 0 <= j < b.len() && b[j] == a[0];
        let i = choose|i: int| 0 <= i < a.len() && a[i] == b[0];
        assert(a.contains(a[0]) && b.contains(b[0]));
        assert(at_most(a[0].id, a[i].id));
        assert(at_most(b[0].id, b[j].id));
        at_most_antisymmetric(a[0].id, b[0].id);
        assert(a[0] == b[0]);
        let c = a.remove(0);
        let d = b.remove(0);
        to_multiset_remove(a, 0);
        to_multiset_remove(b, 0);
        assert forall|x: int, y: int| 0 <= x <= y < c.len() implies at_most(
            #[trigger] c[x].id,
            #[trigger] c[y].id,
        ) by {
            assert(c[x] == a[x + 1] && c[y] == a[y + 1]);
        }
        assert forall|x: int, y: int| 0 <= x <= y < d.len() implies at_most(
            #[trigger] d[x].id,
            #[trigger] d[y].id,
        ) by {
            assert(d[x] == b[x + 1] && d[y] == b[y + 1]);
        }
        assert forall|x: int, y: int|
            0 <= x < c.len() && 0 <= y < c.len() && (#[trigger] c[x]).id == (
            #[trigger] c[y]).id implies c[x] == c[y] by {
            assert(c[x] == a[x + 1] && c[y] == a[y + 1]);
        }
        ordered_lists_agree(c, d);
        assert(a =~= seq![a[0]] + c);
        assert(b =~= seq![b[0]] + d);
    }
}

/// Where no two roles have the same name, there is one way to put them in order, whatever order
/// they came in.
pub proof fn order_of_roles_is_unique(
    a: Seq<RoleModel>,
    b: Seq<RoleModel>,
    from: Seq<RoleModel>,
    other: Seq<RoleModel>,
)
    requires
        distinct_ids(from),
        from.to_multiset() == other.to_multiset(),
        sorted_roles(a, from),
        sorted_roles(b, other),
    ensures
        a == b,
{
    assert forall|i: int, j: int|
        0 <= i < a.len() && 0 <= j < a.len() && (#[trigger] a[i]).id == (
        #[trigger] a[j]).id implies a[i] == a[j] by {
        to_multiset_contains(a, a[i]);
        to_multiset_contains(a, a[j]);
        to_multiset_contains(from, a[i]);
        to_multiset_contains(from, a[j]);
        assert(a.contains(a[i]) && a.contains(a[j]));
        let x = choose|x: int| 0 <= x < from.len() && from[x] == a[i];
        let y = choose|y: int| 0 <= y < from.len() && from[y] == a[j];
        if x < y {
            assert(from[x].id != from[y].id);
        } else if y < x {
            assert(from[y].id != from[x].id);
        }
    }
    ordered_lists_agree(a, b);
}

/// The delegate tool is told of every role: the line of each stands in the description.
pub proof fn description_names_every_role(roles: Seq<RoleModel>, i: int)
    requires
        0 <= i < roles.len(),
    ensures
        exists|before: Seq<char>, after: Seq<char>|
            #[trigger] (before + role_line(roles[i]) + after) == delegate_description(roles),
{
    let opening = "Hand off one scoped job to a subagent. Isolated history; no nested delegate. Only the final message returns. Fan out independent calls. Not for one trivial tool call.\n\nRoles:"@;
    let after = role_line_in_lines(roles, i, roles.len() as int);
    let before = opening + role_lines(roles, i);
    assert(before + role_line(roles[i]) + after =~= delegate_description(roles));
}

proof fn role_line_in_lines(roles: Seq<RoleModel>, i: int, n: int) -> (after: Seq<char>)
    requires
        0 <= i < n <= roles.len(),
    ensures
        role_lines(roles, n) == role_lines(roles, i) + role_line(roles[i]) + after,
    decreases n,
{
    if i == n - 1 {
        let after = Seq::<char>::empty();
        assert(role_lines(roles, n) =~= role_lines(roles, i) + role_line(roles[i]) + after);
        after
    } else {
        let sooner = role_line_in_lines(roles, i, n - 1);
        let after = sooner + role_line(roles[n - 1]);
        assert(role_lines(roles, n) =~= role_lines(roles, i) + role_line(roles[i]) + after);
        after
    }
}

/// The model of a role holds every field as it is.
pub proof fn roles_are_viewed_field_by_field(role: DelegateRole)
    ensures
        role.deep_view().id == role.id@,
        role.deep_view().description == role.description@,
        role.deep_view().tools.len() == role.tools@.len(),
        forall|i: int|
            0 <= i < role.tools@.len() ==> #[trigger] role.deep_view().tools[i] == role.tools@[i]@,
{
}

/// The line of a role has its name, its description where it has one, and its tools where it has
/// some, each whatever the others are.
pub proof fn role_line_says_all_of_a_role(
    id: Seq<char>,
    description: Seq<char>,
    tools: Seq<Seq<char>>,
)
    requires
        description.len() > 0,
        tools.len() > 0,
    ensures
        ({
            let none = Seq::<char>::empty();
            let no_tools = Seq::<Seq<char>>::empty();
            let bare = "\n- "@ + id;
            let described = " — "@ + description;
            let listed = " ["@ + join(tools, ", "@) + "]"@;
            &&& role_line(RoleModel { id, description: none, tools: no_tools }) == bare
            &&& role_line(RoleModel { id, description, tools: no_tools }) == bare + described
            &&& role_line(RoleModel { id, description: none, tools }) == bare + listed
            &&& role_line(RoleModel { id, description, tools }) == bare + described + listed
        }),
{
    let none = Seq::<char>::empty();
    let no_tools = Seq::<Seq<char>>::empty();
    let bare = "\n- "@ + id;
    let described = " — "@ + description;
    let listed = " ["@ + join(tools, ", "@) + "]"@;
    assert(role_line(RoleModel { id, description: none, tools: no_tools }) =~= bare);
    assert(role_line(RoleModel { id, description, tools: no_tools }) =~= bare + described);
    assert(role_line(RoleModel { id, description: none, tools }) =~= bare + listed);
}

proof fn role_lines_of_the_first(a: Seq<RoleModel>, b: Seq<RoleModel>, n: int)
    requires
        0 <= n <= a.len(),
        n <= b.len(),
        forall|i: int| 0 <= i < n ==> a[i] == #[trigger] b[i],
    ensures
        role_lines(a, n) == role_lines(b, n),
    decreases n,
{
    if n > 0 {
        assert(a[n - 1] == b[n - 1]);
        role_lines_of_the_first(a, b, n - 1);
    }
}

/// One more role adds its line to the description of the delegate tool and its name to the choices,
/// and changes nothing else.
pub proof fn one_more_role_adds_its_line(roles: Seq<RoleModel>, role: RoleModel)
    ensures
        ({
            let before = delegate_def(roles);
            let after = delegate_def(roles.push(role));
            let p = before.parameters;
            let q = after.parameters;
            &&& after.def_type == before.def_type
            &&& after.name == before.name
            &&& after.description == before.description + role_line(role)
            &&& p is Object && q is Object
            &&& p->required == q->required
            &&& p->properties.len() == 3 && q->properties.len() == 3
            &&& p->properties[0].choices is Some
            &&& q->properties[0] == (PropertyModel {
                choices: Some(p->properties[0].choices.unwrap().push(role.id)),
                ..p->properties[0]
            })
            &&& p->properties[1] == q->properties[1]
            &&& p->properties[2] == q->properties[2]
        }),
{
    let more = roles.push(role);
    role_lines_of_the_first(more, roles, roles.len() as int);
    assert(delegate_description(more) =~= delegate_description(roles) + role_line(role));
    assert(role_ids(more) =~= role_ids(roles).push(role.id));
}

/// The delegate tool before any role is added.
pub proof fn delegate_tool_without_roles()
    ensures
        ({
            let def = delegate_def(seq![]);
            let p = def.parameters->properties;
            &&& def.def_type == "function"@
            &&& def.name == "delegate"@
            &&& def.description
                == "Hand off one scoped job to a subagent. Isolated history; no nested delegate. Only the final message returns. Fan out independent calls. Not for one trivial tool call.\n\nRoles:"@
            &&& def.parameters is Object
            &&& def.parameters->required == seq!["subagent"@, "task"@]
            &&& p.len() == 3
            &&& p[0].name == "subagent"@ && p[0].kind == "string"@ && p[0].description
                == "Role id"@
            &&& p[0].choices == Some(Seq::<Seq<char>>::empty())
            &&& p[1].name == "task"@ && p[1].kind == "string"@ && p[1].choices is None
            &&& p[1].description
                == "One goal, success check, paths, constraints. Prefer paths over pastes."@
            &&& p[2].name == "context"@ && p[2].kind == "string"@ && p[2].choices is None
            &&& p[2].description
                == "Optional bulk (snippets, logs). Prefer paths when disk is readable."@
        }),
{
    let none = Seq::<RoleModel>::empty();
    assert(delegate_description(none)
        =~= "Hand off one scoped job to a subagent. Isolated history; no nested delegate. Only the final message returns. Fan out independent calls. Not for one trivial tool call.\n\nRoles:"@);
    assert(role_ids(none) =~= Seq::<Seq<char>>::empty());
}

/// Putting roles in order neither loses nor adds nor changes one, and leaves none before a role
/// whose name stands before its own.
pub proof fn sorting_keeps_the_roles(sorted: Seq<RoleModel>, roles: Seq<RoleModel>)
    requires
        sorted_roles(sorted, roles),
    ensures
        sorted.len() == roles.len(),
        forall|role: RoleModel|
            #[trigger] sorted.to_multiset().count(role) == roles.to_multiset().count(role),
        forall|role: RoleModel| #[trigger] sorted.contains(role) <==> roles.contains(role),
        forall|i: int, j: int|
            0 <= i < j < sorted.len() ==> at_most(
                #[trigger] sorted[i].id,
                #[trigger] sorted[j].id,
            ),
{
    to_multiset_len(sorted);
    to_multiset_len(roles);
    assert forall|role: RoleModel| #[trigger] sorted.contains(role) <==> roles.contains(role) by {
        to_multiset_contains(sorted, role);
        to_multiset_contains(roles, role);
    }
}

} // verus!
