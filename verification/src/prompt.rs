//! The system prompt of a session.

use vstd::prelude::*;
use vstd::string::*;

use crate::text::decimal;
use crate::text::decimal_string;
use crate::text::digit;

verus! {

/// How many seconds a tool call may take. A delegated task may take longer.
pub const TOOL_TIMEOUT_SECS: u64 = 120;

/// The rules for the use of tools.
pub open spec fn tool_rules() -> Seq<char> {
    "CRITICAL TOOL RULES:\n- Use tools directly — never describe what you'd do, execute it.\n- Do not fabricate results.\n- Non-delegate tool calls timeout after "@
        + decimal(TOOL_TIMEOUT_SECS as nat)
        + " seconds.\n- Search, find files, and run commands via `bash` (e.g. rg, find, git grep)."@
}

/// The rules for the use of tools.
pub fn tool_rules_prompt() -> (r: String)
    ensures
        r@ == tool_rules(),
{
    let mut r =
        "CRITICAL TOOL RULES:\n- Use tools directly — never describe what you'd do, execute it.\n- Do not fabricate results.\n- Non-delegate tool calls timeout after ".to_owned();
    r.append(decimal_string(TOOL_TIMEOUT_SECS).as_str());
    r.append(
        " seconds.\n- Search, find files, and run commands via `bash` (e.g. rg, find, git grep).",
    );
    r
}

/// A text and an empty line after it; nothing where the text is empty.
pub open spec fn paragraph(text: Seq<char>) -> Seq<char> {
    if text.len() == 0 {
        seq![]
    } else {
        text + "\n\n"@
    }
}

/// A text under a heading; nothing where the text is empty.
pub open spec fn section(heading: Seq<char>, text: Seq<char>) -> Seq<char> {
    if text.len() == 0 {
        seq![]
    } else {
        heading + text
    }
}

/// The system prompt: the general instructions, the prefix of the model, the rules for tools where
/// there are any, the user's conventions and those of the project. What is empty is left out.
pub open spec fn system_prompt(
    system_md: Seq<char>,
    global_md: Seq<char>,
    local_md: Seq<char>,
    system_prefix: Seq<char>,
    has_tools: bool,
) -> Seq<char> {
    paragraph(system_md) + paragraph(system_prefix) + (if has_tools {
        tool_rules()
    } else {
        seq![]
    }) + section("\n\n## User conventions\n"@, global_md) + section(
        "\n\n## Project conventions\n"@,
        local_md,
    )
}

/// Builds the system prompt of its parts.
pub fn build_system_prompt(
    system_md: &str,
    global_md: &str,
    local_md: &str,
    system_prefix: &str,
    has_tools: bool,
) -> (r: String)
    ensures
        r@ == system_prompt(system_md@, global_md@, local_md@, system_prefix@, has_tools),
{
    let mut sb = String::new();
    if !system_md.is_empty() {
        sb.append(system_md);
        sb.append("\n\n");
    }
    assert(sb@ =~= paragraph(system_md@));
    if !system_prefix.is_empty() {
        sb.append(system_prefix);
        sb.append("\n\n");
    }
    assert(sb@ =~= paragraph(system_md@) + paragraph(system_prefix@));
    if has_tools {
        sb.append(tool_rules_prompt().as_str());
    }
    assert(sb@ =~= paragraph(system_md@) + paragraph(system_prefix@) + (if has_tools {
        tool_rules()
    } else {
        seq![]
    }));
    let ghost before_global = sb@;
    if !global_md.is_empty() {
        sb.append("\n\n## User conventions\n");
        sb.append(global_md);
    }
    assert(sb@ =~= before_global + section("\n\n## User conventions\n"@, global_md@));
    let ghost before_local = sb@;
    if !local_md.is_empty() {
        sb.append("\n\n## Project conventions\n");
        sb.append(local_md);
    }
    assert(sb@ =~= before_local + section("\n\n## Project conventions\n"@, local_md@));
    sb
}

// ---------------------------------------------------------------------------------------------
// Laws

/// Each part has its own place in the prompt, whatever the other parts are: the prompt of all parts
/// is made of the prompts of each part alone, in the order of the general instructions, the prefix,
/// the rules for tools, the user's conventions and those of the project.
pub proof fn parts_of_the_prompt_are_independent(
    system_md: Seq<char>,
    global_md: Seq<char>,
    local_md: Seq<char>,
    system_prefix: Seq<char>,
    has_tools: bool,
)
    ensures
        system_prompt(system_md, global_md, local_md, system_prefix, has_tools) == system_prompt(
            system_md,
            seq![],
            seq![],
            seq![],
            false,
        ) + system_prompt(seq![], seq![], seq![], system_prefix, false) + system_prompt(
            seq![],
            seq![],
            seq![],
            seq![],
            has_tools,
        ) + system_prompt(seq![], global_md, seq![], seq![], false) + system_prompt(
            seq![],
            seq![],
            local_md,
            seq![],
            false,
        ),
{
    let e = Seq::<char>::empty();
    assert(system_prompt(system_md, e, e, e, false) =~= paragraph(system_md));
    assert(system_prompt(e, e, e, system_prefix, false) =~= paragraph(system_prefix));
    assert(system_prompt(e, e, e, e, has_tools) =~= if has_tools {
        tool_rules()
    } else {
        e
    });
    assert(system_prompt(e, global_md, e, e, false) =~= section(
        "\n\n## User conventions\n"@,
        global_md,
    ));
    assert(system_prompt(e, e, local_md, e, false) =~= section(
        "\n\n## Project conventions\n"@,
        local_md,
    ));
}

/// What each part makes of the prompt by itself: a text that is not empty stands there whole, with
/// an empty line after it or its heading before it; tools bring the rules for them; and where there
/// is nothing to say, nothing is said.
pub proof fn each_part_stands_in_the_prompt_whole(text: Seq<char>)
    requires
        text.len() > 0,
    ensures
        system_prompt(text, seq![], seq![], seq![], false) == text + "\n\n"@,
        system_prompt(seq![], seq![], seq![], text, false) == text + "\n\n"@,
        system_prompt(seq![], text, seq![], seq![], false) == "\n\n## User conventions\n"@ + text,
        system_prompt(seq![], seq![], text, seq![], false) == "\n\n## Project conventions\n"@
            + text,
        system_prompt(seq![], seq![], seq![], seq![], true) == tool_rules(),
        system_prompt(seq![], seq![], seq![], seq![], false) == Seq::<char>::empty(),
{
    let e = Seq::<char>::empty();
    assert(system_prompt(text, e, e, e, false) =~= text + "\n\n"@);
    assert(system_prompt(e, e, e, text, false) =~= text + "\n\n"@);
    assert(system_prompt(e, text, e, e, false) =~= "\n\n## User conventions\n"@ + text);
    assert(system_prompt(e, e, text, e, false) =~= "\n\n## Project conventions\n"@ + text);
    assert(system_prompt(e, e, e, e, true) =~= tool_rules());
    assert(system_prompt(e, e, e, e, false) =~= e);
}

/// Where there are tools, the rules for them stand in the prompt whole, right after the general
/// instructions and the prefix, whatever the texts are.
pub proof fn rules_stand_after_the_instructions(
    system_md: Seq<char>,
    global_md: Seq<char>,
    local_md: Seq<char>,
    system_prefix: Seq<char>,
)
    ensures
        ({
            let with = system_prompt(system_md, global_md, local_md, system_prefix, true);
            let before = system_prompt(system_md, seq![], seq![], system_prefix, false);
            let after = system_prompt(seq![], global_md, local_md, seq![], false);
            &&& with == before + tool_rules() + after
            &&& system_prompt(system_md, global_md, local_md, system_prefix, false) == before
                + after
        }),
{
    let e = Seq::<char>::empty();
    let before = system_prompt(system_md, e, e, system_prefix, false);
    let after = system_prompt(e, global_md, local_md, e, false);
    assert(system_prompt(system_md, global_md, local_md, system_prefix, true) =~= before
        + tool_rules() + after);
    assert(system_prompt(system_md, global_md, local_md, system_prefix, false) =~= before + after);
}

/// The rules for tools name the time after which a tool is given up.
pub proof fn rules_name_the_timeout()
    ensures
        tool_rules()
            == "CRITICAL TOOL RULES:\n- Use tools directly — never describe what you'd do, execute it.\n- Do not fabricate results.\n- Non-delegate tool calls timeout after "@
            + seq!['1', '2', '0']
            + " seconds.\n- Search, find files, and run commands via `bash` (e.g. rg, find, git grep)."@,
{
    reveal_with_fuel(decimal, 4);
    assert(decimal(120) =~= seq!['1', '2', '0']) by {
        assert(digit(1) == '1' && digit(2) == '2' && digit(0) == '0');
        assert(decimal(1) =~= seq!['1']);
        assert(decimal(12) =~= seq!['1', '2']);
    }
}

} // verus!
