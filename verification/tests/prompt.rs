use agent_core::prompt::build_system_prompt;
use agent_core::prompt::tool_rules_prompt;

const RULES: &str = "CRITICAL TOOL RULES:\n- Use tools directly — never describe what you'd do, execute it.\n- Do not fabricate results.\n- Non-delegate tool calls timeout after 120 seconds.\n- Search, find files, and run commands via `bash` (e.g. rg, find, git grep).";

#[test]
fn tool_rules_name_the_timeout() {
    assert_eq!(tool_rules_prompt(), RULES);
}

#[test]
fn a_prompt_of_all_parts() {
    assert_eq!(
        build_system_prompt("sys", "glob", "loc", "pre", true),
        format!("sys\n\npre\n\n{RULES}\n\n## User conventions\nglob\n\n## Project conventions\nloc")
    );
}

#[test]
fn empty_parts_are_left_out() {
    assert_eq!(build_system_prompt("", "", "", "", false), "");
    assert_eq!(build_system_prompt("sys", "", "", "", false), "sys\n\n");
    assert_eq!(build_system_prompt("", "", "", "pre", false), "pre\n\n");
    assert_eq!(build_system_prompt("", "", "", "", true), RULES);
    assert_eq!(build_system_prompt("", "g", "", "", false), "\n\n## User conventions\ng");
    assert_eq!(build_system_prompt("", "", "l", "", false), "\n\n## Project conventions\nl");
}
