use agent_core::gitignore::decided;
use agent_core::gitignore::parse_gitignore_file;
use agent_core::gitignore::should_skip_dir;
use agent_core::gitignore::GitignoreMatcher;

fn matcher_from(relative_gi: &str, content: &str) -> GitignoreMatcher {
    let mut m = GitignoreMatcher::new();
    m.add_file(Some(content), relative_gi);
    m
}

#[test]
fn test_gitignore_basic() {
    let matcher = matcher_from("", "ignored_dir/\n*.log\n");

    assert!(matcher.is_ignored("ignored_dir", true));
    assert!(matcher.is_ignored("debug.log", false));
    assert!(!matcher.is_ignored("main.go", false));
}

#[test]
fn test_gitignore_negation() {
    let matcher = matcher_from("", "*.go\n!important.go\n");

    assert!(matcher.is_ignored("main.go", false));
    assert!(!matcher.is_ignored("important.go", false));
}

#[test]
fn test_gitignore_nested() {
    let mut matcher = matcher_from("", "*.log\n");
    matcher.add_file(Some("*.go\n"), "sub");

    assert!(matcher.is_ignored("debug.log", false));
    assert!(matcher.is_ignored("sub/helper.go", false));
    assert!(!matcher.is_ignored("main.go", false));
    assert!(matcher.is_ignored("sub/data.log", false));
}

#[test]
fn test_gitignore_leading_slash_anchored() {
    let matcher = matcher_from("", "/target\n");

    assert!(matcher.is_ignored("target", true));
    assert!(!matcher.is_ignored("sub/target", true));
}

#[test]
fn test_gitignore_no_file() {
    let matcher = GitignoreMatcher::new();
    assert!(!matcher.is_ignored("anything.go", false));
}

#[test]
fn an_unreadable_file_adds_no_rule() {
    let mut matcher = matcher_from("", "*.log\n");
    matcher.add_file(None, "sub");
    assert!(matcher.is_ignored("sub/a.log", false));
    assert!(!matcher.is_ignored("sub/a.txt", false));
    assert_eq!(parse_gitignore_file(None, "x").len(), 0);
}

#[test]
fn a_directory_rule_spares_files() {
    let matcher = matcher_from("", "build/\n");
    assert!(matcher.is_ignored("build", true));
    assert!(!matcher.is_ignored("build", false));
    assert!(matcher.is_ignored("sub/build", true));
}

#[test]
fn comments_and_blank_lines_make_no_rule() {
    let text = "# a comment\n\n   \t\n  # another\n  *.tmp  \n\u{a0}\u{3000}\n";
    assert_eq!(parse_gitignore_file(Some(text), "").len(), 1);
    let matcher = matcher_from("", text);
    assert!(matcher.is_ignored("x.tmp", false));
    assert!(!matcher.is_ignored("# a comment", false));
}

#[test]
fn lines_may_end_with_carriage_returns() {
    let matcher = matcher_from("", "*.a\r\n*.b\r\n*.c");
    assert!(matcher.is_ignored("x.a", false));
    assert!(matcher.is_ignored("x.b", false));
    assert!(matcher.is_ignored("x.c", false));
}

#[test]
fn the_last_matching_rule_decides() {
    let matcher = matcher_from("", "*.go\n!important.go\nimportant.*\n");
    assert!(matcher.is_ignored("important.go", false));
    let mut other = matcher_from("", "*.go\n");
    other.add_file(Some("!*.go\n"), "sub");
    assert!(other.is_ignored("a.go", false));
    assert!(!other.is_ignored("sub/a.go", false));
}

#[test]
fn a_nested_rule_is_confined_to_its_directory() {
    let matcher = matcher_from("sub", "*.go\n/top\nx/*.c\n");
    assert!(matcher.is_ignored("sub/deep/a.go", false));
    assert!(!matcher.is_ignored("other/a.go", false));
    assert!(!matcher.is_ignored("subway/a.go", false));
    assert!(matcher.is_ignored("sub/top", false));
    assert!(!matcher.is_ignored("sub/deep/top", false));
    assert!(matcher.is_ignored("sub/x/a.c", false));
    assert!(!matcher.is_ignored("sub/deep/x/a.c", false));
}

#[test]
fn a_star_does_not_cross_directories() {
    let matcher = matcher_from("", "doc/*.txt\n**/gen/*.rs\n");
    assert!(matcher.is_ignored("doc/a.txt", false));
    assert!(!matcher.is_ignored("doc/sub/a.txt", false));
    assert!(matcher.is_ignored("a/b/gen/x.rs", false));
    assert!(!matcher.is_ignored("a/b/gen/c/x.rs", false));
}

#[test]
fn an_invalid_pattern_matches_nothing() {
    let matcher = matcher_from("", "[a\n{x\n*.log\n");
    assert!(!matcher.is_ignored("[a", false));
    assert!(!matcher.is_ignored("{x", false));
    assert!(matcher.is_ignored("y.log", false));
}

#[test]
fn a_pattern_without_slash_is_matched_against_the_last_name() {
    let matcher = matcher_from("", "name\n");
    for path in [
        "name", "a/name", "a/name/", "a/name/.", "a/./name", "./name", "a//name", "../name", "a/name/..", "..", ".",
        "", "/", "name/..", "a/namex", "/name",
    ] {
        let last = match std::path::Path::new(path).file_name() {
            Some(s) => s.to_string_lossy().to_string(),
            None => path.to_string(),
        };
        assert_eq!(matcher.is_ignored(path, true), last == "name", "{path:?}");
    }
}

#[test]
fn a_path_without_a_name_is_matched_whole() {
    let matcher = matcher_from("", "*\n");
    assert!(matcher.is_ignored("..", true));
    let matcher = matcher_from("", "\\.\\.\n");
    assert!(matcher.is_ignored("..", true));
    assert!(!matcher.is_ignored("a/..", true));
}

#[test]
fn markers_alone_leave_an_empty_pattern() {
    let matcher = matcher_from("", "!\n/\n!/\n");
    assert!(!matcher.is_ignored("a", true));
    assert_eq!(parse_gitignore_file(Some("!\n/\n!/\n//\n"), "").len(), 4);
}

#[test]
fn any_text_gives_one_rule_for_each_line_with_a_pattern() {
    let long = "a".repeat(100_000);
    let deep = format!("{}x{}", "{a,".repeat(5000), "}".repeat(5000));
    let open = "{".repeat(5000);
    let text = format!("{long}\n\n# {deep}\n{deep}\n!{open}\n[\n/x/\n");
    assert_eq!(parse_gitignore_file(Some(&text), "sub").len(), 5);
    let matcher = matcher_from("sub", &text);
    assert!(matcher.can_decide("other", true));
    assert!(!matcher.is_ignored("other", true));
    assert!(!matcher.can_decide("sub/x", true));
}

#[test]
fn patterns_beyond_the_compiler_are_told_apart() {
    let decides = |content: &str| matcher_from("", content).can_decide("a", false);
    assert!(decides(""));
    assert!(decides(&"a".repeat(32768)));
    assert!(!decides(&"a".repeat(32769)));
    assert!(decides(&format!("{}/", "a".repeat(32769))));
    assert!(decides(&format!("[{}", "a".repeat(100_000))));
    assert!(decides(&"{".repeat(80)));
    assert!(!decides(&"{".repeat(81)));
    assert!(decides(&"{a,b}".repeat(500)));
    assert!(decides(&format!("{}x{}", "{".repeat(80), "}".repeat(80))));
    assert!(!decides(&format!("{}x{}", "{".repeat(81), "}".repeat(81))));
    assert!(decides(&"{[a],b}".repeat(80)));
    assert!(!decides(&"{[a],b}".repeat(81)));
    assert!(!decides(&"{[}],b".repeat(81)));
    assert!(!decides(&"{\\},b".repeat(81)));
    assert!(decides(&format!("#{}", "{".repeat(81))));
}

#[test]
fn the_deepest_patterns_compile() {
    for leaf in ["x", "x/**/y", "[a-c]*", "**/x", "x/**", "?*", "{p,q}"] {
        let depth = if leaf.contains('{') { 79 } else { 80 };
        let nested = format!("{}{leaf}*{}", "a*{b*,c*".repeat(depth), "}".repeat(depth));
        let matcher = matcher_from("", &format!("/{nested}"));
        assert!(matcher.can_decide("zzz", false));
        assert!(!matcher.is_ignored("zzz", false));
    }
    let nested = format!("{}x{}", "{a,".repeat(80), "}".repeat(80));
    let matcher = matcher_from("", &nested);
    assert!(matcher.is_ignored("x", false));
    assert!(matcher.is_ignored("a", false));
    assert!(!matcher.is_ignored("b", false));
}

fn longest(unit: &str, head: &str, tail: &str) -> String {
    let room = 32768 - head.chars().count() - tail.chars().count();
    format!("/{head}{}{tail}", unit.repeat(room / unit.chars().count()))
}

#[test]
fn the_longest_patterns_compile() {
    for unit in ["a", "?", "*", "\u{10ffff}", "[!a]", "[a-c0-9]", "[\u{10ffff}]", "a/**/", "{a*,b*}", "{*,**}"] {
        let matcher = matcher_from("", &longest(unit, "q", ""));
        assert!(matcher.can_decide("zz/z", false), "{unit:?}");
        assert!(!matcher.is_ignored("zz/z", false), "{unit:?}");
    }
}

#[test]
fn the_longest_alternatives_compile() {
    for unit in ["\u{10ffff}", "\u{10ffff},", "\u{10ffff}\u{10fffe},", "*,", "**,", "a,ab,abc,"] {
        for (head, tail) in [("q{\u{10000},", "}"), ("q{*,", ",z}"), ("q{a,", "b}")] {
            let matcher = matcher_from("", &longest(unit, head, tail));
            assert!(matcher.can_decide("zz/z", false));
            assert!(!matcher.is_ignored("zz/z", false), "{unit:?}");
        }
    }
}

#[test]
fn the_last_yes_decides() {
    let rules = parse_gitignore_file(Some("*.a\n!*.b\n*.c\n"), "");
    assert!(!decided(&rules, &vec![false, false, false]));
    assert!(decided(&rules, &vec![true, false, false]));
    assert!(!decided(&rules, &vec![true, true, false]));
    assert!(decided(&rules, &vec![true, true, true]));
    assert!(!decided(&rules, &vec![false, true, false]));
    assert!(!decided(&vec![], &vec![]));
}

#[test]
fn a_rule_is_asked_about_the_text_that_its_pattern_is_for() {
    let rules = parse_gitignore_file(Some("*.go\n/top*\nx/*.c\nbuild*/\n"), "sub");
    let asked = |i: usize, path: &str, is_dir: bool| rules[i].asked(path, is_dir);
    assert_eq!(asked(0, "sub/deep/a.go", false).as_deref(), Some("a.go"));
    assert_eq!(asked(1, "sub/deep/top", false).as_deref(), Some("deep/top"));
    assert_eq!(asked(2, "sub/x/a.c", false).as_deref(), Some("x/a.c"));
    assert_eq!(asked(3, "sub/x/build", true).as_deref(), Some("build"));
    assert_eq!(asked(3, "sub/x/build", false), None);
    assert_eq!(asked(0, "subway/a.go", false), None);
    assert_eq!(asked(1, "sub", true).as_deref(), Some("sub"));
}

#[test]
fn skipped_directories() {
    for name in [".git", "node_modules", "vendor", ".idea", ".vscode", "__pycache__", ".pytest_cache"] {
        assert!(should_skip_dir(name));
    }
    for name in ["", "src", ".github", "vendors", "git"] {
        assert!(!should_skip_dir(name));
    }
}

#[test]
fn a_clone_has_the_same_rules() {
    let mut matcher = matcher_from("", "*.log\n!keep.log\n");
    let copy = matcher.clone();
    matcher.add_file(Some("keep.log\n"), "");
    assert!(matcher.is_ignored("keep.log", false));
    assert!(!copy.is_ignored("keep.log", false));
    assert!(copy.is_ignored("other.log", false));
}

#[test]
fn a_plain_pattern_matches_itself_and_nothing_else() {
    let names = [
        "a", "a.b", "a]b", "a,b", "a!b", "^a$", "(a|b)+", "a b", "é", "日本", "\u{1f600}", "-", "a-z", "x&&y", "~~", "...", "a#b",
    ];
    for pattern in names {
        let matcher = matcher_from("", &format!("/{pattern}\n"));
        for path in names {
            assert_eq!(matcher.is_ignored(path, false), path == pattern, "{pattern:?} {path:?}");
        }
        assert!(!matcher.is_ignored("", false));
        assert!(!matcher.is_ignored(&format!("sub/{pattern}"), false));
        let anywhere = matcher_from("sub", &format!("{pattern}\n"));
        assert!(anywhere.is_ignored(&format!("sub/x/{pattern}"), false));
        assert!(anywhere.is_ignored(&format!("sub/{pattern}"), false));
        assert!(!anywhere.is_ignored(&format!("other/{pattern}"), false));
    }
    let below = matcher_from("sub", "/a/b\n");
    assert!(below.is_ignored("sub/a/b", false));
    assert!(!below.is_ignored("sub/x/a/b", false));
    assert!(!below.is_ignored("a/b", false));
}

#[test]
fn a_path_that_cannot_be_decided_is_told_apart() {
    let mut matcher = matcher_from("", "*.log\n");
    matcher.add_file(Some(&"a".repeat(32769)), "sub");
    assert_eq!(matcher.try_is_ignored("sub/x.log", false), None);
    assert_eq!(matcher.try_is_ignored("x.log", false), Some(true));
    assert_eq!(matcher.try_is_ignored("subway/x.txt", false), Some(false));
    let matcher = matcher_from("", &format!("*.log\n[{}\n", "a".repeat(100_000)));
    assert_eq!(matcher.try_is_ignored("x.log", false), Some(true));
    assert_eq!(matcher.try_is_ignored("x", false), Some(false));
}

#[test]
fn an_added_file_has_the_last_word() {
    let paths = ["a.x", "a.y", "a.z", "sub/a.x", "sub/a.y", "sub/a.z", "subway/a.y"];
    let first = "*.x\n!sub/a.x\n*.z\n";
    for (dir, more) in [("", "*.y\n"), ("sub", "*.x\n*.y\n"), ("", "!*.z\n"), ("sub", "!*.x\n!*.z\n"), ("sub", "*\n!*.z\n")] {
        let before = matcher_from("", first);
        let alone = matcher_from(dir, more);
        let mut after = before.clone();
        after.add_file(Some(more), dir);
        for path in paths {
            let (b, o, a) = (before.is_ignored(path, false), alone.is_ignored(path, false), after.is_ignored(path, false));
            assert!(!o || a, "{more:?} {path}");
            if !more.contains('!') {
                assert_eq!(a, b || o, "{more:?} {path}");
            }
            if more.lines().all(|line| line.starts_with('!')) {
                assert!(!a || b, "{more:?} {path}");
            }
            if !dir.is_empty() && !path.starts_with("sub/") {
                assert_eq!(a, b, "{more:?} {path}");
            }
        }
    }
}
