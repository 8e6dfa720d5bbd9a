//! What the library has from other crates and from std's formatting: each item here calls
//! outside code, and its contract is believed, not proved.

use vstd::prelude::*;

use crate::text::count_of;

verus! {

// ---------------------------------------------------------------------------------------------
// Globs

/// The most characters that a glob pattern may have to be compiled.
pub const MAX_PATTERN_CHARS: usize = 32768;

/// How deep the braces of a glob pattern may be nested.
pub const MAX_NESTING: usize = 80;

/// How many braces are open at the end of `pattern`.
pub open spec fn open_braces(pattern: Seq<char>) -> nat
    decreases pattern.len(),
{
    if pattern.len() == 0 {
        0
    } else {
        let before = open_braces(pattern.drop_last());
        if pattern.last() == '{' {
            before + 1
        } else if pattern.last() == '}' && before > 0 {
            (before - 1) as nat
        } else {
            before
        }
    }
}

/// The most braces that are open at once anywhere in `pattern`.
pub open spec fn deepest(pattern: Seq<char>) -> nat
    decreases pattern.len(),
{
    if pattern.len() == 0 {
        0
    } else {
        let before = deepest(pattern.drop_last());
        let here = open_braces(pattern);
        if here > before {
            here
        } else {
            before
        }
    }
}

/// A bound on how deep the braces of `pattern` are nested. In a class or after a `\` a brace does
/// not open or close anything, so where a pattern has one of these all its braces count.
pub open spec fn nesting(pattern: Seq<char>) -> nat {
    if pattern.contains('[') || pattern.contains('\\') {
        count_of(pattern, '{')
    } else {
        deepest(pattern)
    }
}

/// The patterns that `globset` can be asked to build: building recurses on nested braces, and
/// deep enough it would exhaust the stack.
pub open spec fn nesting_fits(pattern: Seq<char>) -> bool {
    nesting(pattern) <= MAX_NESTING
}

/// The patterns that `globset` compiles without running into a limit. `compile_matcher` panics
/// where the regular expression of a pattern is nested deeper than 250 levels, of which one brace
/// takes up to three and what stands around and inside the braces up to five, or where the
/// automaton grows larger than 10 MiB, of which one character takes less than 300 bytes.
pub open spec fn pattern_fits(pattern: Seq<char>) -> bool {
    pattern.len() <= MAX_PATTERN_CHARS && nesting_fits(pattern)
}

/// Whether every character of a pattern stands for itself.
pub open spec fn is_plain(pattern: Seq<char>) -> bool {
    forall|i: int|
        0 <= i < pattern.len() ==> {
            let c = #[trigger] pattern[i];
            c != '?' && c != '*' && c != '[' && c != '{' && c != '}' && c != '\\'
        }
}

/// Whether `globset::GlobBuilder::build` accepts `pattern`, where only a literal `/` matches `/`.
/// This, and what a pattern matches, is meant on platforms where `/` is the only separator of
/// paths: where `\` is one too, `globset` takes `\` otherwise.
pub uninterp spec fn glob_builds(pattern: Seq<char>) -> bool;

/// Whether the matcher that `globset` compiles from `pattern`, where only a literal `/` matches
/// `/`, matches the path `path`.
pub uninterp spec fn glob_matches(pattern: Seq<char>, path: Seq<char>) -> bool;

/// Calls `globset::GlobBuilder::build` with `literal_separator(true)`. The contract claims that
/// whether it succeeds is a function of the pattern, and that it does where every character stands
/// for itself.
#[verifier::external_body]
pub(crate) fn glob_is_valid(pattern: &str) -> (r: bool)
    requires
        nesting_fits(pattern@),
    ensures
        r == glob_builds(pattern@),
        is_plain(pattern@) ==> r,
{
    globset::GlobBuilder::new(pattern).literal_separator(true).build().is_ok()
}

/// Calls `globset::GlobMatcher::is_match` on the matcher that `Glob::compile_matcher` makes of a
/// pattern that builds. The contract claims that the answer is a function of the pattern and the
/// path, and that a pattern whose characters stand for themselves matches the same text and no
/// other. The latter is said of paths without `\`, which is a separator on some platforms.
#[verifier::external_body]
pub(crate) fn glob_is_match(pattern: &str, path: &str) -> (r: bool)
    requires
        pattern_fits(pattern@),
        glob_builds(pattern@),
    ensures
        r == glob_matches(pattern@, path@),
        is_plain(pattern@) && !path@.contains('\\') ==> r == (path@ == pattern@),
{
    let glob = globset::GlobBuilder::new(pattern).literal_separator(true).build().unwrap();
    glob.compile_matcher().is_match(path)
}

// ---------------------------------------------------------------------------------------------
// JSON

/// `serde_json::Value`, a JSON document. It is carried, never looked into.
#[verifier::external_type_specification]
#[verifier::external_body]
pub struct ExValue(serde_json::Value);

/// What `serde_json::from_str` makes of a text: the JSON document that it holds, or the text of
/// the error where it holds none.
pub uninterp spec fn json_parsed(text: Seq<char>) -> Result<serde_json::Value, Seq<char>>;

/// Calls `serde_json::from_str` for a `serde_json::Value`, and takes the error as text. The
/// contract claims that the document or the error's text is a function of the text parsed.
#[verifier::external_body]
pub(crate) fn parse_json(text: &str) -> (r: Result<serde_json::Value, String>)
    ensures
        match r {
            Ok(value) => json_parsed(text@) == Ok::<serde_json::Value, Seq<char>>(value),
            Err(error) => json_parsed(text@) == Err::<serde_json::Value, Seq<char>>(error@),
        },
{
    match serde_json::from_str::<serde_json::Value>(text) {
        Ok(value) => Ok(value),
        Err(error) => Err(error.to_string()),
    }
}

// ---------------------------------------------------------------------------------------------
// Quoting

/// What std's `{:?}` makes of a string: the string in quotes, with its special characters
/// escaped.
pub uninterp spec fn quoted(text: Seq<char>) -> Seq<char>;

/// Formats a string with `{:?}` of std. The contract claims that the outcome is a function of the
/// string.
#[verifier::external_body]
pub(crate) fn quote(text: &str) -> (r: String)
    ensures
        r@ == quoted(text@),
{
    format!("{:?}", text)
}

// ---------------------------------------------------------------------------------------------
// The clock

/// A point in time: whole seconds since 1970 and the nanoseconds after them.
#[derive(Clone, Copy, PartialEq, Eq, Structural, Debug)]
pub struct Timestamp {
    pub secs: i64,
    pub nanos: u32,
}

/// Whether a point in time is one that the clock can show: not before 1970, and with less than a
/// second of nanoseconds.
pub open spec fn is_time(t: Timestamp) -> bool {
    t.secs >= 0 && t.nanos < 1_000_000_000
}

/// Whether `c` is a decimal digit.
pub open spec fn is_digit(c: char) -> bool {
    '0' <= c <= '9'
}

/// The number that two decimal digits write.
pub open spec fn two_digits(a: char, b: char) -> int {
    10 * (a as int - '0' as int) + (b as int - '0' as int)
}

/// Whether a text is a year, a month and a day of the month, with `-` between them. The month and
/// the day have two digits; the year has four or more, and may have a sign.
pub open spec fn is_date(s: Seq<char>) -> bool {
    let n = s.len() as int;
    &&& n >= 10
    &&& s[n - 6] == '-'
    &&& s[n - 3] == '-'
    &&& is_digit(s[n - 5]) && is_digit(s[n - 4]) && 1 <= two_digits(s[n - 5], s[n - 4]) <= 12
    &&& is_digit(s[n - 2]) && is_digit(s[n - 1]) && 1 <= two_digits(s[n - 2], s[n - 1]) <= 31
    &&& forall|i: int| 1 <= i < n - 6 ==> is_digit(#[trigger] s[i])
    &&& is_digit(s[0]) || s[0] == '+' || s[0] == '-'
}

/// Formats `chrono::Local::now` as `%Y-%m-%d`. The contract claims the shape of the text; which
/// day it is depends on the clock and the time zone of the machine.
#[verifier::external_body]
pub(crate) fn local_date() -> (r: String)
    ensures
        is_date(r@),
{
    chrono::Local::now().format("%Y-%m-%d").to_string()
}

/// Reads the clock with `chrono::Utc::now`. The contract claims that the time is not before 1970
/// and that the nanoseconds are less than a second.
#[verifier::external_body]
pub(crate) fn utc_now() -> (r: Timestamp)
    ensures
        is_time(r),
{
    let now = chrono::Utc::now();
    Timestamp { secs: now.timestamp(), nanos: now.timestamp_subsec_nanos() }
}

} // verus!
