use agent_core::text::decimal_string;
use agent_core::text::lines_of;
use agent_core::text::str_at_most;
use agent_core::text::trim;
use agent_core::util::split_frontmatter;
use agent_core::util::truncate_with_ellipsis;

#[test]
fn short_text_is_left_as_it_is() {
    assert_eq!(truncate_with_ellipsis("hello", 5, "..."), "hello");
    assert_eq!(truncate_with_ellipsis("", 0, "..."), "");
}

#[test]
fn long_text_is_cut_to_the_length() {
    assert_eq!(truncate_with_ellipsis("hello world", 8, "..."), "hello...");
    assert_eq!(truncate_with_ellipsis("hello world", 8, ""), "hello wo");
}

#[test]
fn a_cut_never_splits_a_character() {
    assert_eq!(truncate_with_ellipsis("aéé", 4, "."), "aé.");
    assert_eq!(truncate_with_ellipsis("éééé", 6, "…"), "é…");
    assert_eq!(truncate_with_ellipsis("a\u{1f600}b", 5, "."), "a.");
    assert_eq!(truncate_with_ellipsis("日本語", 7, "."), "日本.");
}

#[test]
fn an_ellipsis_longer_than_the_length_stands_alone() {
    assert_eq!(truncate_with_ellipsis("hello", 2, "..."), "...");
    assert_eq!(truncate_with_ellipsis("hello", 0, "..."), "...");
}

#[test]
fn a_truncated_text_fits() {
    let text = "añb日c\u{1f600}def";
    for max in 3..20 {
        assert!(truncate_with_ellipsis(text, max, "...").len() <= max);
    }
}

#[test]
fn frontmatter_is_split() {
    assert_eq!(split_frontmatter("---\nname: x\n---\nbody\n"), Some(("name: x", "\nbody\n")));
    assert_eq!(split_frontmatter("---\r\nname: x\r\n---\r\nbody"), Some(("name: x\r", "\r\nbody")));
    assert_eq!(split_frontmatter("---\n\n---"), Some(("", "")));
    assert_eq!(split_frontmatter("---\na\n---\nb\n---\nc"), Some(("a", "\nb\n---\nc")));
    assert_eq!(split_frontmatter("---\né: ü\n---ö"), Some(("é: ü", "ö")));
}

#[test]
fn a_document_without_frontmatter_is_not_split() {
    assert_eq!(split_frontmatter(""), None);
    assert_eq!(split_frontmatter("body"), None);
    assert_eq!(split_frontmatter("---"), None);
    assert_eq!(split_frontmatter("---\nname: x\n"), None);
    assert_eq!(split_frontmatter("---\n---\nbody"), None);
    assert_eq!(split_frontmatter(" ---\na\n---\n"), None);
    assert_eq!(split_frontmatter("--- \na\n---\n"), None);
}

#[test]
fn lines_are_those_of_std() {
    for text in ["", "a", "a\n", "a\nb", "a\r\nb\r\n", "\n\n", "a\r", "\r\n", "a\n\r", "x\r\r\ny", "é\nü"] {
        let expected: Vec<String> = text.lines().map(|l| l.to_string()).collect();
        assert_eq!(lines_of(text), expected, "{text:?}");
    }
}

#[test]
fn white_space_is_that_of_std() {
    for u in 0..0x11_0000u32 {
        if let Some(c) = char::from_u32(u) {
            assert_eq!(agent_core::text::char_is_whitespace(c), c.is_whitespace(), "{u:x}");
        }
    }
    for text in ["", " ", " a ", "\u{3000}a b\u{2003}\n", "a", "\t\n"] {
        assert_eq!(trim(text), text.trim());
    }
}

#[test]
fn numbers_are_written_in_decimal() {
    for n in [0, 7, 10, 99, 100, 120, 1_234_567_890, u64::MAX] {
        assert_eq!(decimal_string(n), n.to_string());
    }
}

#[test]
fn strings_are_ordered_as_in_std() {
    let all = ["", "a", "ab", "b", "B", "é", "\u{ffff}", "\u{10000}", "日本"];
    for a in all {
        for b in all {
            assert_eq!(str_at_most(a, b), a <= b, "{a:?} {b:?}");
        }
    }
}
