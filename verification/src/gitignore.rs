//! Gitignore rules: parsing the lines of a gitignore file, and deciding by the rules of several
//! such files whether a path is ignored.
//!
//! Paths are those of platforms where `/` is the only separator: there a `\` is a character of a
//! name like any other.

use vstd::prelude::*;
use vstd::string::*;

use crate::outside::deepest;
use crate::outside::glob_builds;
use crate::outside::glob_is_match;
use crate::outside::glob_is_valid;
use crate::outside::glob_matches;
use crate::outside::is_plain;
use crate::outside::nesting;
use crate::outside::nesting_fits;
use crate::outside::open_braces;
use crate::outside::pattern_fits;
use crate::outside::MAX_NESTING;
use crate::outside::MAX_PATTERN_CHARS;
use crate::text::blank;
use crate::text::blank_text_is_trimmed_away;
use crate::text::chars_of;
use crate::text::contains_char;
use crate::text::count_char;
use crate::text::count_is_that_of_the_multiset;
use crate::text::count_of;
use crate::text::is_whitespace;
use crate::text::lines;
use crate::text::lines_of;
use crate::text::lines_of_composed_text;
use crate::text::starts_with;
use crate::text::str_eq;
use crate::text::string_of;
use crate::text::trim;
use crate::text::trim_end_keeps_the_start;
use crate::text::trim_start_of_composed;
use crate::text::trimmed;
use crate::text::trimming_ignores_space_at_the_end;
use crate::text::trimming_takes_off_the_ends;

verus! {

// ---------------------------------------------------------------------------------------------
// Directories that are never searched

/// The names of directories that hold no sources of a project's own.
pub open spec fn skipped_dir(name: Seq<char>) -> bool {
    ||| name == ".git"@
    ||| name == "node_modules"@
    ||| name == "vendor"@
    ||| name == ".idea"@
    ||| name == ".vscode"@
    ||| name == "__pycache__"@
    ||| name == ".pytest_cache"@
}

/// Whether a directory of this name is left out of every search.
pub fn should_skip_dir(name: &str) -> (r: bool)
    ensures
        r == skipped_dir(name@),
{
    str_eq(name, ".git") || str_eq(name, "node_modules") || str_eq(name, "vendor") || str_eq(
        name,
        ".idea",
    ) || str_eq(name, ".vscode") || str_eq(name, "__pycache__") || str_eq(name, ".pytest_cache")
}

// ---------------------------------------------------------------------------------------------
// Lines

/// What one line of a gitignore file says.
#[verifier::ext_equal]
pub struct LineModel {
    pub pattern: Seq<char>,
    pub negate: bool,
    pub dir_only: bool,
    pub anchored: bool,
}

/// What a line says, of which white space at both ends does not count: nothing where it is blank
/// or a comment (`#`); else a pattern, negated by a leading `!`, for directories only by a
/// trailing `/`, and anchored by a leading `/` (all three of which are no part of the pattern).
pub open spec fn line_meaning(raw: Seq<char>) -> Option<LineModel> {
    let line = trimmed(raw);
    if line.len() == 0 || line[0] == '#' {
        None
    } else {
        let negate = line[0] == '!';
        let a = if negate {
            line.skip(1)
        } else {
            line
        };
        let dir_only = a.len() > 0 && a.last() == '/';
        let b = if dir_only {
            a.drop_last()
        } else {
            a
        };
        let anchored = b.len() > 0 && b[0] == '/';
        let pattern = if anchored {
            b.skip(1)
        } else {
            b
        };
        Some(LineModel { pattern, negate, dir_only, anchored })
    }
}

/// One line of a gitignore file that holds a pattern.
struct PatternLine {
    pattern: String,
    negate: bool,
    dir_only: bool,
    anchored: bool,
}

impl PatternLine {
    spec fn model(self) -> LineModel {
        LineModel {
            pattern: self.pattern@,
            negate: self.negate,
            dir_only: self.dir_only,
            anchored: self.anchored,
        }
    }
}

fn parse_line(raw: &str) -> (r: Option<PatternLine>)
    ensures
        match r {
            Some(line) => line_meaning(raw@) == Some(line.model()),
            None => line_meaning(raw@) is None,
        },
{
    let line = trim(raw);
    let x = chars_of(line.as_str());
    let n: usize = x.len();
    if n == 0 || x[0] == '#' {
        return None;
    }
    let mut from: usize = 0;
    let mut to: usize = n;
    let negate = x[0] == '!';
    if negate {
        from = 1;
    }
    let ghost a = if negate {
        x@.skip(1)
    } else {
        x@
    };
    assert(a =~= x@.subrange(from as int, to as int));
    let dir_only = from < to && x[to - 1] == '/';
    if dir_only {
        to = to - 1;
    }
    let ghost b = if dir_only {
        a.drop_last()
    } else {
        a
    };
    assert(b =~= x@.subrange(from as int, to as int));
    let anchored = from < to && x[from] == '/';
    if anchored {
        from = from + 1;
    }
    let pattern = string_of(&x, from, to);
    assert(pattern@ =~= if anchored {
        b.skip(1)
    } else {
        b
    });
    Some(PatternLine { pattern, negate, dir_only, anchored })
}

// ---------------------------------------------------------------------------------------------
// Rules

/// A rule: what a line says, and the directory of the file that it stands in, relative to the
/// root (empty for the root itself).
#[verifier::ext_equal]
pub struct RuleModel {
    pub line: LineModel,
    pub dir: Seq<char>,
}

/// The rules of a file in the directory `dir`, in the order of its lines.
pub open spec fn rules_of(lines: Seq<Seq<char>>, dir: Seq<char>) -> Seq<RuleModel>
    decreases lines.len(),
{
    if lines.len() == 0 {
        seq![]
    } else {
        let before = rules_of(lines.drop_last(), dir);
        match line_meaning(lines.last()) {
            Some(line) => before.push(RuleModel { line, dir }),
            None => before,
        }
    }
}

/// The rules of the file in `dir` whose content is `content`; a file that could not be read has
/// none.
pub open spec fn file_rules(content: Option<Seq<char>>, dir: Seq<char>) -> Seq<RuleModel> {
    match content {
        Some(text) => rules_of(lines(text), dir),
        None => seq![],
    }
}

fn nesting_of(pattern: &str) -> (r: usize)
    ensures
        r == nesting(pattern@),
{
    if contains_char(pattern, '[') || contains_char(pattern, '\\') {
        return count_char(pattern, '{');
    }
    let x = chars_of(pattern);
    let mut open: usize = 0;
    let mut most: usize = 0;
    let mut i: usize = 0;
    assert(x@.take(0) =~= Seq::<char>::empty());
    while i < x.len()
        invariant
            i <= x@.len(),
            open <= i,
            open == open_braces(x@.take(i as int)),
            most == deepest(x@.take(i as int)),
        decreases x@.len() - i,
    {
        assert(x@.take(i + 1).drop_last() =~= x@.take(i as int));
        if x[i] == '{' {
            open = open + 1;
        } else if x[i] == '}' && open > 0 {
            open = open - 1;
        }
        if open > most {
            most = open;
        }
        i = i + 1;
    }
    assert(x@.take(i as int) =~= x@);
    most
}

/// A plain pattern has no braces to be nested.
proof fn plain_pattern_is_flat(pattern: Seq<char>)
    requires
        is_plain(pattern),
    ensures
        open_braces(pattern) == 0,
        nesting(pattern) == 0,
    decreases pattern.len(),
{
    if pattern.len() > 0 {
        let init = pattern.drop_last();
        assert(pattern.last() == pattern[pattern.len() - 1]);
        assert forall|i: int| 0 <= i < init.len() implies #[trigger] init[i] == pattern[i] by {}
        plain_pattern_is_flat(init);
    }
}

/// What is known of the pattern of a rule.
#[derive(Clone, Copy, PartialEq, Eq, Structural, Debug)]
pub enum GlobState {
    /// It is a valid glob.
    Valid,
    /// It is no valid glob; a rule with such a pattern matches nothing.
    Invalid,
    /// Its braces are nested too deep to find out.
    Untried,
}

/// One rule of a gitignore file.
#[derive(Debug)]
pub struct GitignoreRule {
    pattern: String,
    negate: bool,
    dir_only: bool,
    anchored: bool,
    dir: String,
    glob: GlobState,
}

impl GitignoreRule {
    /// What the rule says and where it stands.
    pub closed spec fn model(self) -> RuleModel {
        RuleModel {
            line: LineModel {
                pattern: self.pattern@,
                negate: self.negate,
                dir_only: self.dir_only,
                anchored: self.anchored,
            },
            dir: self.dir@,
        }
    }

    /// What the rule knows of its pattern.
    pub closed spec fn glob(self) -> GlobState {
        self.glob
    }

    /// The rule knows whether its pattern is a glob, unless it is nested too deep; a plain one is.
    pub open spec fn wf(self) -> bool {
        let pattern = self.model().line.pattern;
        &&& self.glob() == if !nesting_fits(pattern) {
            GlobState::Untried
        } else if glob_builds(pattern) {
            GlobState::Valid
        } else {
            GlobState::Invalid
        }
        &&& is_plain(pattern) ==> self.glob() == GlobState::Valid
    }
}

impl Clone for GitignoreRule {
    fn clone(&self) -> (r: Self)
        ensures
            r.model() == self.model(),
            r.glob() == self.glob(),
    {
        GitignoreRule {
            pattern: self.pattern.clone(),
            negate: self.negate,
            dir_only: self.dir_only,
            anchored: self.anchored,
            dir: self.dir.clone(),
            glob: self.glob,
        }
    }
}

/// What a list of rules says.
pub open spec fn models(rules: Seq<GitignoreRule>) -> Seq<RuleModel> {
    rules.map_values(|rule: GitignoreRule| rule.model())
}

/// The rules of the gitignore file in `dir` whose content is `content`, `None` where the file
/// could not be read.
pub fn parse_gitignore_file(content: Option<&str>, dir: &str) -> (r: Vec<GitignoreRule>)
    ensures
        models(r@) == file_rules(
            match content {
                Some(text) => Some(text@),
                None => None,
            },
            dir@,
        ),
        forall|i: int| 0 <= i < r@.len() ==> (#[trigger] r@[i]).wf(),
{
    let mut rules: Vec<GitignoreRule> = Vec::new();
    let text = match content {
        Some(text) => text,
        None => {
            assert(models(rules@) =~= seq![]);
            return rules;
        },
    };
    let all = lines_of(text);
    let ghost whole = lines(text@);
    let mut i: usize = 0;
    assert(models(rules@) =~= rules_of(whole.take(0), dir@));
    while i < all.len()
        invariant
            i <= all@.len(),
            all.deep_view() == whole,
            models(rules@) == rules_of(whole.take(i as int), dir@),
            forall|j: int| 0 <= j < rules@.len() ==> (#[trigger] rules@[j]).wf(),
        decreases all@.len() - i,
    {
        assert(all.deep_view()[i as int] == all@[i as int]@);
        assert(whole.take(i + 1).drop_last() =~= whole.take(i as int));
        if let Some(line) = parse_line(all[i].as_str()) {
            let glob = if nesting_of(line.pattern.as_str()) > MAX_NESTING {
                GlobState::Untried
            } else if glob_is_valid(line.pattern.as_str()) {
                GlobState::Valid
            } else {
                GlobState::Invalid
            };
            proof {
                if is_plain(line.pattern@) {
                    plain_pattern_is_flat(line.pattern@);
                }
            }
            let ghost before = rules@;
            rules.push(
                GitignoreRule {
                    pattern: line.pattern,
                    negate: line.negate,
                    dir_only: line.dir_only,
                    anchored: line.anchored,
                    dir: dir.to_owned(),
                    glob,
                },
            );
            assert(models(rules@) =~= models(before).push(rules@.last().model()));
        }
        i = i + 1;
    }
    assert(whole.take(i as int) =~= whole);
    rules
}

// ---------------------------------------------------------------------------------------------
// Paths

/// The index at which the last segment of a path begins: after its last `/`.
pub open spec fn last_segment(path: Seq<char>) -> nat
    decreases path.len(),
{
    if path.len() == 0 || path.last() == '/' {
        path.len()
    } else {
        last_segment(path.drop_last())
    }
}

/// The last name in a path: its last segment that is neither empty nor `.`. A path without such a
/// segment, and one in which it is `..`, has none. This is what `std::path::Path::file_name` gives
/// on platforms where `/` is the only separator; a `\`, which separates too on others, is part of
/// a name here.
pub open spec fn file_name(path: Seq<char>) -> Option<Seq<char>>
    decreases path.len(),
{
    proof {
        last_segment_bounds(path);
    }
    let start = last_segment(path) as int;
    let segment = path.skip(start);
    if segment.len() == 0 || segment == "."@ {
        if start == 0 {
            None
        } else {
            file_name(path.take(start - 1))
        }
    } else if segment == ".."@ {
        None
    } else {
        Some(segment)
    }
}

/// The last segment begins within the path, after a `/` or at the start, and holds no `/`.
pub proof fn last_segment_bounds(path: Seq<char>)
    ensures
        last_segment(path) <= path.len(),
        last_segment(path) > 0 ==> path[last_segment(path) - 1] == '/',
        forall|i: int| last_segment(path) <= i < path.len() ==> path[i] != '/',
    decreases path.len(),
{
    if path.len() > 0 && path.last() != '/' {
        let init = path.drop_last();
        last_segment_bounds(init);
        assert forall|i: int| last_segment(path) <= i < path.len() implies path[i] != '/' by {
            if i < init.len() {
                assert(init[i] == path[i]);
            }
        }
    }
}

fn name_of(path: &str) -> (r: Option<String>)
    ensures
        match r {
            Some(name) => file_name(path@) == Some(name@),
            None => file_name(path@) is None,
        },
{
    let x = chars_of(path);
    let mut end: usize = x.len();
    assert(x@.take(end as int) =~= x@);
    loop
        invariant
            end <= x@.len(),
            x@ == path@,
            file_name(path@) == file_name(x@.take(end as int)),
        decreases end,
    {
        let ghost here = x@.take(end as int);
        let mut start: usize = end;
        assert(x@.take(start as int) =~= here);
        while start > 0 && x[start - 1] != '/'
            invariant
                start <= end <= x@.len(),
                last_segment(here) == last_segment(x@.take(start as int)),
            decreases start,
        {
            assert(x@.take(start as int).drop_last() =~= x@.take(start - 1));
            start = start - 1;
        }
        assert(last_segment(here) == start);
        let segment = string_of(&x, start, end);
        assert(segment@ =~= here.skip(start as int));
        if end == start || str_eq(segment.as_str(), ".") {
            if start == 0 {
                return None;
            }
            assert(here.take(start - 1) =~= x@.take(start - 1));
            end = start - 1;
        } else if str_eq(segment.as_str(), "..") {
            return None;
        } else {
            return Some(segment);
        }
    }
}

/// The path of something in the directory `dir`, relative to `dir`; any other path as it is.
pub open spec fn below(path: Seq<char>, dir: Seq<char>) -> Seq<char> {
    if (dir + "/"@).is_prefix_of(path) {
        path.skip(dir.len() as int + 1)
    } else {
        path
    }
}

fn path_below(path: &str, dir: &str) -> (r: String)
    ensures
        r@ == below(path@, dir@),
{
    proof {
        reveal_strlit("/");
    }
    let mut prefix = dir.to_owned();
    prefix.append("/");
    if starts_with(path, prefix.as_str()) {
        let x = chars_of(path);
        let from: usize = chars_of(prefix.as_str()).len();
        let r = string_of(&x, from, x.len());
        assert(r@ =~= path@.skip(dir@.len() as int + 1));
        r
    } else {
        path.to_owned()
    }
}

// ---------------------------------------------------------------------------------------------
// Matching

/// Whether `path` is the directory of the rule or lies in it.
pub open spec fn in_scope(rule: RuleModel, path: Seq<char>) -> bool {
    rule.dir.len() == 0 || (rule.dir + "/"@).is_prefix_of(path) || path == rule.dir
}

/// What the pattern of a rule is matched against: the path relative to the rule's directory where
/// the rule is anchored or its pattern holds a `/`, else the last name in the path.
pub open spec fn target(rule: RuleModel, path: Seq<char>) -> Seq<char> {
    if !rule.line.anchored && !rule.line.pattern.contains('/') {
        match file_name(path) {
            Some(name) => name,
            None => path,
        }
    } else if rule.dir.len() == 0 {
        path
    } else {
        below(path, rule.dir)
    }
}

/// The text that the pattern of a rule is asked about for a path; none where the rule has no say
/// about it, whatever its pattern.
pub open spec fn asked(rule: RuleModel, path: Seq<char>, is_dir: bool) -> Option<Seq<char>> {
    if (is_dir || !rule.line.dir_only) && in_scope(rule, path) {
        Some(target(rule, path))
    } else {
        None
    }
}

/// Whether a rule speaks of a path.
pub open spec fn applies(rule: RuleModel, path: Seq<char>, is_dir: bool) -> bool {
    &&& asked(rule, path, is_dir) is Some
    &&& glob_builds(rule.line.pattern)
    &&& glob_matches(rule.line.pattern, target(rule, path))
}

/// Whether a rule whose pattern is a plain name or path speaks of a path.
pub open spec fn plainly_applies(rule: RuleModel, path: Seq<char>, is_dir: bool) -> bool {
    asked(rule, path, is_dir) == Some(rule.line.pattern)
}

/// Whether a rule, if its pattern is plain, speaks of just the paths that the pattern spells out.
pub open spec fn plain_rule_is_exact(rule: RuleModel, path: Seq<char>, is_dir: bool) -> bool {
    is_plain(rule.line.pattern) && !path.contains('\\') ==> applies(rule, path, is_dir)
        == plainly_applies(rule, path, is_dir)
}

proof fn file_name_is_of_path(path: Seq<char>)
    ensures
        file_name(path) matches Some(name) ==> forall|c: char|
            name.contains(c) ==> path.contains(c),
    decreases path.len(),
{
    last_segment_bounds(path);
    let start = last_segment(path) as int;
    let segment = path.skip(start);
    assert forall|c: char| segment.contains(c) implies path.contains(c) by {
        let i = choose|i: int| 0 <= i < segment.len() && segment[i] == c;
        assert(path[start + i] == c);
    }
    if start > 0 {
        let front = path.take(start - 1);
        file_name_is_of_path(front);
        assert forall|c: char| front.contains(c) implies path.contains(c) by {
            let i = choose|i: int| 0 <= i < front.len() && front[i] == c;
            assert(path[i] == c);
        }
    }
}

/// What a pattern is matched against is a part of the path.
proof fn target_is_of_path(rule: RuleModel, path: Seq<char>)
    ensures
        forall|c: char| target(rule, path).contains(c) ==> path.contains(c),
{
    reveal_strlit("/");
    file_name_is_of_path(path);
    let rest = path.skip(rule.dir.len() as int + 1);
    if (rule.dir + "/"@).is_prefix_of(path) {
        assert forall|c: char| rest.contains(c) implies path.contains(c) by {
            let i = choose|i: int| 0 <= i < rest.len() && rest[i] == c;
            assert(path[rule.dir.len() + 1 + i] == c);
        }
    }
}

/// Whether a path is ignored: the last rule that speaks of it decides.
pub open spec fn ignored(rules: Seq<RuleModel>, path: Seq<char>, is_dir: bool) -> bool
    decreases rules.len(),
{
    if rules.len() == 0 {
        false
    } else if applies(rules.last(), path, is_dir) {
        !rules.last().line.negate
    } else {
        ignored(rules.drop_last(), path, is_dir)
    }
}

/// Whether `k` is the last index at which there is a yes.
pub open spec fn last_yes(answers: Seq<bool>, k: int) -> bool {
    &&& 0 <= k < answers.len()
    &&& answers[k]
    &&& forall|j: int| k < j < answers.len() ==> !#[trigger] answers[j]
}

/// Whether a path is ignored of which each of these rules was asked whether it speaks of it: there
/// is a last rule that does, and it is not negated.
pub open spec fn decision(rules: Seq<RuleModel>, answers: Seq<bool>) -> bool {
    exists|k: int| #[trigger] last_yes(answers, k) && !rules[k].line.negate
}

/// Whether it can be found out what a pattern matches: it stays clear of the compiler's limits, or
/// is no glob and need not be compiled.
pub open spec fn answerable(pattern: Seq<char>) -> bool {
    pattern_fits(pattern) || (nesting_fits(pattern) && !glob_builds(pattern))
}

/// Whether all rules that are asked about a path can answer.
pub open spec fn decidable(rules: Seq<RuleModel>, path: Seq<char>, is_dir: bool) -> bool {
    forall|i: int|
        0 <= i < rules.len() && asked(#[trigger] rules[i], path, is_dir) is Some ==> answerable(
            rules[i].line.pattern,
        )
}

impl GitignoreRule {
    /// The text that the pattern of the rule is asked about for a path, if it is.
    pub fn asked(&self, rel_path: &str, is_dir: bool) -> (r: Option<String>)
        ensures
            match r {
                Some(text) => asked(self.model(), rel_path@, is_dir) == Some(text@),
                None => asked(self.model(), rel_path@, is_dir) is None,
            },
    {
        if !is_dir && self.dir_only {
            return None;
        }
        let mut prefix = self.dir.clone();
        prefix.append("/");
        if !self.dir.as_str().is_empty() && !starts_with(rel_path, prefix.as_str()) && !str_eq(
            rel_path,
            self.dir.as_str(),
        ) {
            return None;
        }
        let target = if self.anchored {
            if self.dir.as_str().is_empty() {
                rel_path.to_owned()
            } else {
                path_below(rel_path, self.dir.as_str())
            }
        } else if !contains_char(self.pattern.as_str(), '/') {
            match name_of(rel_path) {
                Some(name) => name,
                None => rel_path.to_owned(),
            }
        } else if !self.dir.as_str().is_empty() {
            path_below(rel_path, self.dir.as_str())
        } else {
            rel_path.to_owned()
        };
        Some(target)
    }

    fn can_answer(&self) -> (r: bool)
        requires
            self.wf(),
        ensures
            r == answerable(self.model().line.pattern),
    {
        match self.glob {
            GlobState::Valid => chars_of(self.pattern.as_str()).len() <= MAX_PATTERN_CHARS,
            GlobState::Invalid => true,
            GlobState::Untried => false,
        }
    }

    fn matches(&self, rel_path: &str, is_dir: bool) -> (r: bool)
        requires
            self.wf(),
            asked(self.model(), rel_path@, is_dir) is Some ==> answerable(
                self.model().line.pattern,
            ),
        ensures
            r == applies(self.model(), rel_path@, is_dir),
            plain_rule_is_exact(self.model(), rel_path@, is_dir),
    {
        proof {
            target_is_of_path(self.model(), rel_path@);
        }
        match self.asked(rel_path, is_dir) {
            Some(text) => self.glob == GlobState::Valid && glob_is_match(
                self.pattern.as_str(),
                text.as_str(),
            ),
            None => false,
        }
    }
}

/// Whether a path is ignored of which each of these rules was asked whether it speaks of it.
pub fn decided(rules: &Vec<GitignoreRule>, answers: &Vec<bool>) -> (r: bool)
    requires
        answers@.len() == rules@.len(),
    ensures
        r == decision(models(rules@), answers@),
{
    let mut n: usize = answers.len();
    while n > 0
        invariant
            n <= answers@.len() == rules@.len(),
            forall|j: int| n <= j < answers@.len() ==> !#[trigger] answers@[j],
        decreases n,
    {
        if answers[n - 1] {
            proof {
                assert(last_yes(answers@, n - 1));
                assert(models(rules@)[n - 1] == rules@[n - 1].model());
                assert forall|k: int| last_yes(answers@, k) implies k == n - 1 by {
                    if k < n - 1 {
                        assert(!answers@[n - 1]);
                    }
                }
            }
            return !rules[n - 1].negate;
        }
        n = n - 1;
    }
    false
}

/// The rules of any number of gitignore files.
#[derive(Debug)]
pub struct GitignoreMatcher {
    rules: Vec<GitignoreRule>,
}

impl GitignoreMatcher {
    /// The rules, in the order in which they were added.
    pub closed spec fn rules(&self) -> Seq<RuleModel> {
        models(self.rules@)
    }

    #[verifier::type_invariant]
    spec fn wf(self) -> bool {
        forall|i: int| 0 <= i < self.rules@.len() ==> (#[trigger] self.rules@[i]).wf()
    }

    /// A matcher without rules.
    pub fn new() -> (r: Self)
        ensures
            r.rules() == Seq::<RuleModel>::empty(),
    {
        let r = GitignoreMatcher { rules: Vec::new() };
        assert(r.rules() =~= Seq::<RuleModel>::empty());
        r
    }

    /// Adds the rules of the gitignore file in `dir` whose content is `content`, `None` where the
    /// file could not be read.
    pub fn add_file(&mut self, content: Option<&str>, dir: &str)
        ensures
            final(self).rules() == old(self).rules() + file_rules(
                match content {
                    Some(text) => Some(text@),
                    None => None,
                },
                dir@,
            ),
    {
        proof {
            use_type_invariant(&*self);
        }
        let mut more = parse_gitignore_file(content, dir);
        let ghost added = more@;
        let mut rules: Vec<GitignoreRule> = Vec::new();
        std::mem::swap(&mut rules, &mut self.rules);
        let ghost before = rules@;
        rules.append(&mut more);
        assert(models(rules@) =~= models(before) + models(added));
        self.rules = rules;
    }

    /// Whether it can be decided of the path, relative to the root, whether it is ignored: all
    /// rules that are asked about it can answer.
    pub fn can_decide(&self, rel_path: &str, is_dir: bool) -> (r: bool)
        ensures
            r == decidable(self.rules(), rel_path@, is_dir),
    {
        proof {
            use_type_invariant(self);
        }
        let ghost all = self.rules();
        let mut i: usize = 0;
        while i < self.rules.len()
            invariant
                i <= self.rules@.len(),
                all == models(self.rules@),
                forall|j: int| 0 <= j < self.rules@.len() ==> (#[trigger] self.rules@[j]).wf(),
                forall|j: int|
                    0 <= j < i && asked(#[trigger] all[j], rel_path@, is_dir) is Some
                        ==> answerable(all[j].line.pattern),
            decreases self.rules@.len() - i,
        {
            assert(all[i as int] == self.rules@[i as int].model());
            assert(self.rules@[i as int].wf());
            if self.rules[i].asked(rel_path, is_dir).is_some() && !self.rules[i].can_answer() {
                return false;
            }
            i = i + 1;
        }
        true
    }

    /// Whether the path, relative to the root, is ignored.
    pub fn is_ignored(&self, rel_path: &str, is_dir: bool) -> (r: bool)
        requires
            decidable(self.rules(), rel_path@, is_dir),
        ensures
            r == ignored(self.rules(), rel_path@, is_dir),
            forall|i: int|
                0 <= i < self.rules().len() ==> plain_rule_is_exact(
                    #[trigger] self.rules()[i],
                    rel_path@,
                    is_dir,
                ),
    {
        proof {
            use_type_invariant(self);
        }
        let ghost all = self.rules();
        let mut answers: Vec<bool> = Vec::new();
        let mut i: usize = 0;
        while i < self.rules.len()
            invariant
                i <= self.rules@.len(),
                all == models(self.rules@),
                decidable(all, rel_path@, is_dir),
                forall|j: int| 0 <= j < self.rules@.len() ==> (#[trigger] self.rules@[j]).wf(),
                answers@.len() == i,
                forall|j: int|
                    0 <= j < i ==> #[trigger] answers@[j] == applies(all[j], rel_path@, is_dir),
                forall|j: int|
                    0 <= j < i ==> plain_rule_is_exact(#[trigger] all[j], rel_path@, is_dir),
            decreases self.rules@.len() - i,
        {
            assert(all[i as int] == self.rules@[i as int].model());
            assert(self.rules@[i as int].wf());
            answers.push(self.rules[i].matches(rel_path, is_dir));
            i = i + 1;
        }
        proof {
            answers_decide(all, answers@, rel_path@, is_dir);
        }
        decided(&self.rules, &answers)
    }

    /// Whether the path, relative to the root, is ignored; nothing where it cannot be decided.
    pub fn try_is_ignored(&self, rel_path: &str, is_dir: bool) -> (r: Option<bool>)
        ensures
            r == if decidable(self.rules(), rel_path@, is_dir) {
                Some(ignored(self.rules(), rel_path@, is_dir))
            } else {
                None
            },
    {
        if self.can_decide(rel_path, is_dir) {
            Some(self.is_ignored(rel_path, is_dir))
        } else {
            None
        }
    }
}

impl Clone for GitignoreMatcher {
    fn clone(&self) -> (r: Self)
        ensures
            r.rules() == self.rules(),
    {
        proof {
            use_type_invariant(self);
        }
        let rules = self.rules.clone();
        assert(models(rules@) =~= models(self.rules@));
        GitignoreMatcher { rules }
    }
}

// ---------------------------------------------------------------------------------------------
// Laws

/// To know of each rule whether it speaks of a path is to know whether the path is ignored.
pub proof fn answers_decide(
    rules: Seq<RuleModel>,
    answers: Seq<bool>,
    path: Seq<char>,
    is_dir: bool,
)
    requires
        answers.len() == rules.len(),
        forall|i: int|
            0 <= i < rules.len() ==> #[trigger] answers[i] == applies(rules[i], path, is_dir),
    ensures
        ignored(rules, path, is_dir) == decision(rules, answers),
    decreases rules.len(),
{
    if rules.len() > 0 {
        let n = rules.len() - 1;
        assert(answers[n] == applies(rules[n], path, is_dir));
        if answers[n] {
            assert(last_yes(answers, n));
            assert forall|k: int| last_yes(answers, k) implies k == n by {
                if k < n {
                    assert(!answers[n]);
                }
            }
        } else {
            let init = rules.drop_last();
            let fewer = answers.drop_last();
            assert forall|i: int| 0 <= i < init.len() implies #[trigger] fewer[i] == applies(
                init[i],
                path,
                is_dir,
            ) by {
                assert(answers[i] == applies(rules[i], path, is_dir));
            }
            answers_decide(init, fewer, path, is_dir);
            assert forall|k: int| last_yes(answers, k) == last_yes(fewer, k) by {
                if last_yes(answers, k) {
                    assert forall|j: int| k < j < fewer.len() implies !#[trigger] fewer[j] by {
                        assert(!answers[j]);
                    }
                }
                if last_yes(fewer, k) {
                    assert forall|j: int| k < j < answers.len() implies !#[trigger] answers[j] by {
                        if j < n {
                            assert(!fewer[j]);
                        }
                    }
                }
            }
            if decision(init, fewer) {
                let k = choose|k: int| #[trigger] last_yes(fewer, k) && !init[k].line.negate;
                assert(last_yes(answers, k) && !rules[k].line.negate);
            }
            if decision(rules, answers) {
                let k = choose|k: int| #[trigger] last_yes(answers, k) && !rules[k].line.negate;
                assert(last_yes(fewer, k) && !init[k].line.negate);
            }
        }
    }
}

/// The last rule that speaks of a path decides: the path is ignored unless that rule is negated.
pub proof fn last_applying_rule_decides(
    rules: Seq<RuleModel>,
    path: Seq<char>,
    is_dir: bool,
    k: int,
)
    requires
        0 <= k < rules.len(),
        applies(rules[k], path, is_dir),
        forall|i: int| k < i < rules.len() ==> !applies(#[trigger] rules[i], path, is_dir),
    ensures
        ignored(rules, path, is_dir) == !rules[k].line.negate,
    decreases rules.len(),
{
    if k < rules.len() - 1 {
        assert(!applies(rules[rules.len() - 1], path, is_dir));
        let init = rules.drop_last();
        assert forall|i: int| k < i < init.len() implies !applies(
            #[trigger] init[i],
            path,
            is_dir,
        ) by {
            assert(init[i] == rules[i]);
        }
        last_applying_rule_decides(init, path, is_dir, k);
    }
}

/// A path of which no rule speaks is not ignored.
pub proof fn path_without_rule_is_kept(rules: Seq<RuleModel>, path: Seq<char>, is_dir: bool)
    requires
        forall|i: int| 0 <= i < rules.len() ==> !applies(#[trigger] rules[i], path, is_dir),
    ensures
        !ignored(rules, path, is_dir),
    decreases rules.len(),
{
    if rules.len() > 0 {
        let init = rules.drop_last();
        assert(!applies(rules[rules.len() - 1], path, is_dir));
        assert forall|i: int| 0 <= i < init.len() implies !applies(
            #[trigger] init[i],
            path,
            is_dir,
        ) by {
            assert(init[i] == rules[i]);
        }
        path_without_rule_is_kept(init, path, is_dir);
    }
}

/// Rules that are added later override the earlier ones wherever one of them speaks of the path,
/// and leave them in force elsewhere.
pub proof fn later_rules_override(
    first: Seq<RuleModel>,
    later: Seq<RuleModel>,
    path: Seq<char>,
    is_dir: bool,
)
    ensures
        ignored(first + later, path, is_dir) == if exists|i: int|
            0 <= i < later.len() && applies(#[trigger] later[i], path, is_dir) {
            ignored(later, path, is_dir)
        } else {
            ignored(first, path, is_dir)
        },
    decreases later.len(),
{
    let all = first + later;
    if later.len() == 0 {
        assert(all =~= first);
    } else {
        assert(all.drop_last() =~= first + later.drop_last());
        assert(all.last() == later.last());
        if applies(later.last(), path, is_dir) {
            assert(applies(later[later.len() - 1], path, is_dir));
        } else {
            let init = later.drop_last();
            later_rules_override(first, init, path, is_dir);
            if exists|i: int| 0 <= i < later.len() && applies(#[trigger] later[i], path, is_dir) {
                let i = choose|i: int|
                    0 <= i < later.len() && applies(#[trigger] later[i], path, is_dir);
                assert(applies(init[i], path, is_dir));
            } else {
                assert forall|i: int| 0 <= i < init.len() implies !applies(
                    #[trigger] init[i],
                    path,
                    is_dir,
                ) by {
                    assert(init[i] == later[i]);
                }
            }
        }
    }
}

/// Whether none of these rules is negated.
pub open spec fn none_negated(rules: Seq<RuleModel>) -> bool {
    forall|i: int| 0 <= i < rules.len() ==> !(#[trigger] rules[i]).line.negate
}

/// Whether all of these rules are negated.
pub open spec fn all_negated(rules: Seq<RuleModel>) -> bool {
    forall|i: int| 0 <= i < rules.len() ==> (#[trigger] rules[i]).line.negate
}

proof fn rules_of_one_sign(rules: Seq<RuleModel>, path: Seq<char>, is_dir: bool)
    ensures
        none_negated(rules) && (exists|i: int|
            0 <= i < rules.len() && applies(#[trigger] rules[i], path, is_dir)) ==> ignored(
            rules,
            path,
            is_dir,
        ),
        all_negated(rules) ==> !ignored(rules, path, is_dir),
    decreases rules.len(),
{
    if rules.len() > 0 {
        let init = rules.drop_last();
        let n = rules.len() - 1;
        rules_of_one_sign(init, path, is_dir);
        assert(rules.last() == rules[n]);
        assert forall|i: int| 0 <= i < init.len() implies #[trigger] init[i] == rules[i] by {}
        if none_negated(rules) {
            assert(none_negated(init));
            if exists|i: int| 0 <= i < rules.len() && applies(#[trigger] rules[i], path, is_dir) {
                let i = choose|i: int|
                    0 <= i < rules.len() && applies(#[trigger] rules[i], path, is_dir);
                if i < n {
                    assert(applies(init[i], path, is_dir));
                }
            }
        }
        if all_negated(rules) {
            assert(all_negated(init));
        }
    }
}

/// What a file that is added can do: what it ignores by itself is ignored; without a negated rule
/// it ignores that in addition to what was ignored before; with negated rules only it ignores
/// nothing that was not ignored before.
pub proof fn added_file_has_the_last_word(
    first: Seq<RuleModel>,
    content: Option<Seq<char>>,
    dir: Seq<char>,
    path: Seq<char>,
    is_dir: bool,
)
    ensures
        ({
            let added = file_rules(content, dir);
            let before = ignored(first, path, is_dir);
            let alone = ignored(added, path, is_dir);
            let after = ignored(first + added, path, is_dir);
            &&& alone ==> after
            &&& none_negated(added) ==> after == (before || alone)
            &&& all_negated(added) ==> after ==> before
        }),
{
    let added = file_rules(content, dir);
    later_rules_override(first, added, path, is_dir);
    rules_of_one_sign(added, path, is_dir);
    if forall|i: int| 0 <= i < added.len() ==> !applies(#[trigger] added[i], path, is_dir) {
        path_without_rule_is_kept(added, path, is_dir);
    }
}

/// Where a path can be decided by the rules of several files, it can be decided by those of each
/// of them, and the other way round.
pub proof fn files_are_decided_apart(
    first: Seq<RuleModel>,
    added: Seq<RuleModel>,
    path: Seq<char>,
    is_dir: bool,
)
    ensures
        decidable(first + added, path, is_dir) <==> decidable(first, path, is_dir) && decidable(
            added,
            path,
            is_dir,
        ),
{
    let all = first + added;
    if decidable(all, path, is_dir) {
        assert forall|i: int|
            0 <= i < first.len() && asked(
                #[trigger] first[i],
                path,
                is_dir,
            ) is Some implies answerable(first[i].line.pattern) by {
            assert(all[i] == first[i]);
        }
        assert forall|i: int|
            0 <= i < added.len() && asked(
                #[trigger] added[i],
                path,
                is_dir,
            ) is Some implies answerable(added[i].line.pattern) by {
            assert(all[first.len() + i] == added[i]);
        }
    }
}

/// A negated rule takes the paths that it matches back from all rules before it.
pub proof fn negation_takes_back(
    rules: Seq<RuleModel>,
    rule: RuleModel,
    path: Seq<char>,
    is_dir: bool,
)
    requires
        rule.line.negate,
        applies(rule, path, is_dir),
    ensures
        !ignored(rules.push(rule), path, is_dir),
{
    assert(rules.push(rule).last() == rule);
}

/// A rule for directories only has no say about a file.
pub proof fn directory_rule_spares_files(rules: Seq<RuleModel>, rule: RuleModel, path: Seq<char>)
    requires
        rule.line.dir_only,
    ensures
        ignored(rules.push(rule), path, false) == ignored(rules, path, false),
{
    assert(rules.push(rule).drop_last() =~= rules);
}

/// A rule of a file in a directory has no say about a path outside that directory.
pub proof fn rule_is_confined_to_its_directory(
    rules: Seq<RuleModel>,
    rule: RuleModel,
    path: Seq<char>,
    is_dir: bool,
)
    requires
        rule.dir.len() > 0,
        path != rule.dir,
        !(rule.dir + "/"@).is_prefix_of(path),
    ensures
        ignored(rules.push(rule), path, is_dir) == ignored(rules, path, is_dir),
{
    assert(rules.push(rule).drop_last() =~= rules);
}

proof fn rules_of_file_are_in_its_directory(lines: Seq<Seq<char>>, dir: Seq<char>)
    ensures
        forall|i: int|
            0 <= i < rules_of(lines, dir).len() ==> (#[trigger] rules_of(lines, dir)[i]).dir == dir,
    decreases lines.len(),
{
    if lines.len() > 0 {
        let init = lines.drop_last();
        rules_of_file_are_in_its_directory(init, dir);
        assert forall|i: int| 0 <= i < rules_of(lines, dir).len() implies (#[trigger] rules_of(
            lines,
            dir,
        )[i]).dir == dir by {
            if i < rules_of(init, dir).len() {
                assert(rules_of(init, dir)[i].dir == dir);
            }
        }
    }
}

/// A file in a directory has no say about a path outside that directory: whether the path is
/// ignored, and whether that can be decided, is as if the file had not been added.
pub proof fn file_is_confined_to_its_directory(
    first: Seq<RuleModel>,
    content: Option<Seq<char>>,
    dir: Seq<char>,
    path: Seq<char>,
    is_dir: bool,
)
    requires
        dir.len() > 0,
        path != dir,
        !(dir + "/"@).is_prefix_of(path),
    ensures
        ignored(first + file_rules(content, dir), path, is_dir) == ignored(first, path, is_dir),
        decidable(first + file_rules(content, dir), path, is_dir) == decidable(
            first,
            path,
            is_dir,
        ),
{
    let added = file_rules(content, dir);
    if let Some(text) = content {
        rules_of_file_are_in_its_directory(lines(text), dir);
    }
    assert forall|i: int| 0 <= i < added.len() implies asked(
        #[trigger] added[i],
        path,
        is_dir,
    ) is None by {}
    later_rules_override(first, added, path, is_dir);
    files_are_decided_apart(first, added, path, is_dir);
}

/// A rule whose pattern is no valid glob has no say at all.
pub proof fn invalid_pattern_has_no_say(
    rules: Seq<RuleModel>,
    rule: RuleModel,
    path: Seq<char>,
    is_dir: bool,
)
    requires
        !glob_builds(rule.line.pattern),
    ensures
        ignored(rules.push(rule), path, is_dir) == ignored(rules, path, is_dir),
{
    assert(rules.push(rule).drop_last() =~= rules);
}

/// A plain name that is not anchored speaks of everything of that name in the directory of its
/// file, however deep.
pub proof fn plain_name_matches_at_any_depth(
    rule: RuleModel,
    parent: Seq<char>,
    name: Seq<char>,
    is_dir: bool,
)
    requires
        !rule.line.anchored,
        rule.line.pattern == name,
        name.len() > 0 && name != "."@ && name != ".."@,
        !name.contains('/'),
        is_dir || !rule.line.dir_only,
        rule.dir.len() == 0 || rule.dir == parent || (rule.dir + "/"@).is_prefix_of(parent),
    ensures
        plainly_applies(rule, parent + "/"@ + name, is_dir),
{
    reveal_strlit("/");
    let path = parent + "/"@ + name;
    let k = parent.len() + 1;
    last_segment_bounds(path);
    assert(last_segment(path) == k) by {
        if last_segment(path) < k {
            assert(path[k - 1] == '/');
        } else if last_segment(path) > k {
            assert(path[last_segment(path) - 1] == name[last_segment(path) - 1 - k]);
        }
    }
    assert(path.skip(k as int) =~= name);
    if rule.dir.len() > 0 {
        let prefix = rule.dir + "/"@;
        if rule.dir == parent {
            assert(prefix =~= path.subrange(0, prefix.len() as int));
        } else {
            assert forall|i: int| 0 <= i < prefix.len() implies prefix[i] == path[i] by {
                assert(parent.subrange(0, prefix.len() as int)[i] == parent[i]);
            }
            assert(prefix =~= path.subrange(0, prefix.len() as int));
        }
    }
}

/// A plain pattern that is anchored in the root speaks of the path that it spells out and of no
/// other.
pub proof fn anchored_pattern_matches_one_path(rule: RuleModel, path: Seq<char>, is_dir: bool)
    requires
        rule.line.anchored,
        rule.dir.len() == 0,
    ensures
        plainly_applies(rule, path, is_dir) <==> path == rule.line.pattern && (is_dir
            || !rule.line.dir_only),
{
}

/// A plain pattern that is anchored in a directory speaks of the path that it spells out below
/// that directory, and of nothing else below it.
pub proof fn anchored_pattern_matches_below_its_directory(
    rule: RuleModel,
    path: Seq<char>,
    is_dir: bool,
)
    requires
        rule.line.anchored,
        rule.dir.len() > 0,
        (rule.dir + "/"@).is_prefix_of(path),
    ensures
        plainly_applies(rule, path, is_dir) <==> path == rule.dir + "/"@ + rule.line.pattern && (
        is_dir || !rule.line.dir_only),
{
    reveal_strlit("/");
    let prefix = rule.dir + "/"@;
    assert(path =~= prefix + path.skip(prefix.len() as int));
    assert((prefix + rule.line.pattern).skip(prefix.len() as int) =~= rule.line.pattern);
}

/// The rules of a file are those of its parts, in order.
pub proof fn rules_of_parts(first: Seq<Seq<char>>, rest: Seq<Seq<char>>, dir: Seq<char>)
    ensures
        rules_of(first + rest, dir) == rules_of(first, dir) + rules_of(rest, dir),
    decreases rest.len(),
{
    if rest.len() == 0 {
        assert(first + rest =~= first);
        assert(rules_of(first, dir) + rules_of(rest, dir) =~= rules_of(first, dir));
    } else {
        assert((first + rest).drop_last() =~= first + rest.drop_last());
        rules_of_parts(first, rest.drop_last(), dir);
        assert(rules_of(first + rest, dir) =~= rules_of(first, dir) + rules_of(rest, dir));
    }
}

/// A blank line or a comment between other lines changes no rule.
pub proof fn comments_and_blanks_say_nothing(
    first: Seq<Seq<char>>,
    line: Seq<char>,
    rest: Seq<Seq<char>>,
    dir: Seq<char>,
)
    requires
        trimmed(line).len() == 0 || trimmed(line)[0] == '#',
    ensures
        rules_of(first + seq![line] + rest, dir) == rules_of(first + rest, dir),
{
    let head = first + seq![line];
    assert(head.drop_last() =~= first);
    rules_of_parts(head, rest, dir);
    rules_of_parts(first, rest, dir);
}

/// The directories that are never searched are these.
pub proof fn skipped_directories_are_these(name: Seq<char>)
    ensures
        skipped_dir(name) <==> seq![
            ".git"@,
            "node_modules"@,
            "vendor"@,
            ".idea"@,
            ".vscode"@,
            "__pycache__"@,
            ".pytest_cache"@,
        ].contains(name),
{
    let names = seq![
        ".git"@,
        "node_modules"@,
        "vendor"@,
        ".idea"@,
        ".vscode"@,
        "__pycache__"@,
        ".pytest_cache"@,
    ];
    assert(names[0] == ".git"@ && names[1] == "node_modules"@ && names[2] == "vendor"@);
    assert(names[3] == ".idea"@ && names[4] == ".vscode"@ && names[5] == "__pycache__"@);
    assert(names[6] == ".pytest_cache"@);
}

/// A marker of a line, where it is there.
pub open spec fn marker(c: char, there: bool) -> Seq<char> {
    if there {
        seq![c]
    } else {
        seq![]
    }
}

/// The markers of a line say what they say independently of each other and of the white space
/// around the line: `!` before everything negates, `/` before the pattern anchors, `/` after it is
/// for directories only, and what stands between them is the pattern, whatever it holds. What can
/// be read as a marker is read as one.
pub proof fn markers_of_a_line_are_independent(
    before: Seq<char>,
    negate: bool,
    anchored: bool,
    pattern: Seq<char>,
    dir_only: bool,
    after: Seq<char>,
)
    requires
        blank(before),
        blank(after),
        ({
            let body = marker('/', anchored) + pattern;
            let line = marker('!', negate) + body + marker('/', dir_only);
            &&& line.len() > 0
            &&& !is_whitespace(line[0]) && !is_whitespace(line.last())
            &&& line[0] != '#'
            &&& !negate ==> line[0] != '!'
            &&& !anchored ==> pattern.len() == 0 || pattern[0] != '/'
            &&& !dir_only ==> body.len() == 0 || body.last() != '/'
        }),
    ensures
        line_meaning(
            before + (marker('!', negate) + (marker('/', anchored) + pattern) + marker(
                '/',
                dir_only,
            )) + after,
        ) == Some(LineModel { pattern, negate, dir_only, anchored }),
{
    let body = marker('/', anchored) + pattern;
    let line = marker('!', negate) + body + marker('/', dir_only);
    trimming_takes_off_the_ends(before, line, after);
    let a = if negate {
        line.skip(1)
    } else {
        line
    };
    assert(a =~= body + marker('/', dir_only));
    assert((a.len() > 0 && a.last() == '/') == dir_only);
    let b = if dir_only {
        a.drop_last()
    } else {
        a
    };
    assert(b =~= body);
    assert((b.len() > 0 && b[0] == '/') == anchored);
    assert(pattern =~= if anchored {
        b.skip(1)
    } else {
        b
    });
}

/// A pattern that neither begins nor ends with `/` or white space, and does not begin with `!` or
/// `#`, means the same with any markers around it.
pub proof fn pattern_means_the_same_with_any_markers(
    pattern: Seq<char>,
    negate: bool,
    anchored: bool,
    dir_only: bool,
)
    requires
        pattern.len() > 0,
        pattern[0] != '/' && pattern[0] != '!' && pattern[0] != '#',
        pattern.last() != '/',
        !is_whitespace(pattern[0]) && !is_whitespace(pattern.last()),
    ensures
        line_meaning(
            marker('!', negate) + marker('/', anchored) + pattern + marker('/', dir_only),
        ) == Some(LineModel { pattern, negate, dir_only, anchored }),
{
    let e = Seq::<char>::empty();
    let body = marker('/', anchored) + pattern;
    let line = marker('!', negate) + body + marker('/', dir_only);
    assert(body.last() == pattern.last());
    assert(line[0] == if negate {
        '!'
    } else if anchored {
        '/'
    } else {
        pattern[0]
    });
    assert(line.last() == if dir_only {
        '/'
    } else {
        pattern.last()
    });
    markers_of_a_line_are_independent(e, negate, anchored, pattern, dir_only, e);
    assert(e + line + e =~= line);
    assert(marker('!', negate) + marker('/', anchored) + pattern + marker('/', dir_only) =~= line);
}

/// A line of white space says nothing, and neither does one whose first other character is `#`.
pub proof fn blank_lines_and_comments_mean_nothing(before: Seq<char>, rest: Seq<char>)
    requires
        blank(before),
    ensures
        line_meaning(before) is None,
        line_meaning(before + seq!['#'] + rest) is None,
{
    blank_text_is_trimmed_away(before);
    let comment = seq!['#'] + rest;
    assert(before + seq!['#'] + rest =~= before + comment);
    trim_start_of_composed(before, comment);
    trim_end_keeps_the_start(comment);
}

/// What one line says makes one rule, or none, of the directory of its file.
pub open spec fn rules_of_line(line: Seq<char>, dir: Seq<char>) -> Seq<RuleModel> {
    match line_meaning(line) {
        Some(line) => seq![RuleModel { line, dir }],
        None => seq![],
    }
}

proof fn rules_of_one_line(line: Seq<char>, dir: Seq<char>)
    ensures
        rules_of(seq![line], dir) == rules_of_line(line, dir),
{
    let lines = seq![line];
    assert(lines.drop_last() =~= Seq::<Seq<char>>::empty());
    assert(rules_of(lines.drop_last(), dir) =~= Seq::<RuleModel>::empty());
    assert(rules_of(lines, dir) =~= rules_of_line(line, dir));
}

/// The rules of a file are those of its first line and then those of the rest, down to the last
/// line, which need not have a line feed; a file that could not be read has none.
pub proof fn rules_of_file_are_those_of_its_lines(line: Seq<char>, rest: Seq<char>, dir: Seq<char>)
    requires
        forall|i: int| 0 <= i < line.len() ==> #[trigger] line[i] != '\n',
    ensures
        file_rules(Some(line + seq!['\n'] + rest), dir) == rules_of_line(line, dir) + file_rules(
            Some(rest),
            dir,
        ),
        file_rules(Some(line), dir) == rules_of_line(line, dir),
        file_rules(None, dir) == Seq::<RuleModel>::empty(),
{
    lines_of_composed_text(line, rest);
    let first = if line.len() > 0 && line.last() == '\r' {
        line.drop_last()
    } else {
        line
    };
    if line.len() > 0 && line.last() == '\r' {
        assert(line =~= first.push('\r'));
        trimming_ignores_space_at_the_end(first, '\r');
    }
    rules_of_parts(seq![first], lines(rest), dir);
    rules_of_one_line(first, dir);
    rules_of_one_line(line, dir);
    if line.len() == 0 {
        blank_text_is_trimmed_away(line);
        assert(rules_of(lines(line), dir) =~= Seq::<RuleModel>::empty());
    }
}

/// The last name in a path: what follows the last `/`, unless it is nothing or `.`, which do not
/// count, or `..`, which is no name.
pub proof fn last_name_follows_the_last_separator(parent: Seq<char>, name: Seq<char>)
    requires
        !name.contains('/'),
    ensures
        file_name(parent + seq!['/'] + name) == if name.len() == 0 || name == seq!['.'] {
            file_name(parent)
        } else if name == seq!['.', '.'] {
            None
        } else {
            Some(name)
        },
        file_name(name) == if name.len() == 0 || name == seq!['.'] || name == seq!['.', '.'] {
            None
        } else {
            Some(name)
        },
{
    reveal_strlit(".");
    reveal_strlit("..");
    assert("."@ =~= seq!['.']);
    assert(".."@ =~= seq!['.', '.']);
    let path = parent + seq!['/'] + name;
    let k = parent.len() + 1;
    last_segment_bounds(path);
    assert(last_segment(path) == k) by {
        if last_segment(path) < k {
            assert(path[k - 1] == '/');
        } else if last_segment(path) > k {
            assert(path[last_segment(path) - 1] == name[last_segment(path) - 1 - k]);
        }
    }
    assert(path.skip(k as int) =~= name);
    assert(path.take(k - 1) =~= parent);
    last_segment_bounds(name);
    assert(last_segment(name) == 0) by {
        if last_segment(name) > 0 {
            assert(name[last_segment(name) - 1] == '/');
        }
    }
    assert(name.skip(0) =~= name);
}

/// A name that a rule looks at: the last name in a path, or the path where it has none.
pub open spec fn name_or_path(path: Seq<char>) -> Seq<char> {
    match file_name(path) {
        Some(name) => name,
        None => path,
    }
}

/// What a rule is asked about: a rule for directories only is not asked about a file, and a rule of
/// a file in a directory not about what is outside it. Any other rule is asked: about the last name
/// where it is not anchored and its pattern holds no `/`, else about the path below the directory
/// of its file.
pub proof fn rule_is_asked_about_what_it_is_for(rule: RuleModel, path: Seq<char>, is_dir: bool)
    ensures
        ({
            let dir = rule.dir;
            let by_name = !rule.line.anchored && !rule.line.pattern.contains('/');
            let spared = rule.line.dir_only && !is_dir;
            let below_dir = dir + seq!['/'] + path;
            &&& spared ==> asked(rule, path, is_dir) is None
            &&& dir.len() > 0 && path != dir && !(dir + seq!['/']).is_prefix_of(path) ==> asked(
                rule,
                path,
                is_dir,
            ) is None
            &&& !spared && dir.len() == 0 ==> asked(rule, path, is_dir) == Some(
                if by_name {
                    name_or_path(path)
                } else {
                    path
                },
            )
            &&& !spared && dir.len() > 0 ==> asked(rule, below_dir, is_dir) == Some(
                if by_name {
                    name_or_path(below_dir)
                } else {
                    path
                },
            )
            &&& !spared && dir.len() > 0 ==> asked(rule, dir, is_dir) == Some(
                if by_name {
                    name_or_path(dir)
                } else {
                    dir
                },
            )
        }),
{
    reveal_strlit("/");
    assert("/"@ =~= seq!['/']);
    let dir = rule.dir;
    let prefix = dir + seq!['/'];
    let below_dir = prefix + path;
    assert(prefix =~= below_dir.subrange(0, prefix.len() as int));
    assert(prefix.is_prefix_of(below_dir));
    assert(below_dir.skip(dir.len() as int + 1) =~= path);
    assert(!prefix.is_prefix_of(dir));
}

/// A rule speaks of a path where its pattern is a glob that matches what the rule is asked about,
/// and nowhere else.
pub proof fn rule_speaks_where_its_glob_matches(rule: RuleModel, path: Seq<char>, is_dir: bool)
    ensures
        applies(rule, path, is_dir) <==> exists|text: Seq<char>|
            asked(rule, path, is_dir) == Some(text) && glob_builds(rule.line.pattern)
                && #[trigger] glob_matches(rule.line.pattern, text),
{
    if applies(rule, path, is_dir) {
        let text = asked(rule, path, is_dir).unwrap();
        assert(glob_matches(rule.line.pattern, text));
    }
}

/// The last yes decides: the path is ignored unless the rule that gave it is negated. Without a yes
/// it is not ignored.
pub proof fn last_yes_decides(rules: Seq<RuleModel>, answers: Seq<bool>, k: int)
    requires
        0 <= k < answers.len(),
        answers.len() == rules.len(),
        forall|j: int| k < j < answers.len() ==> !#[trigger] answers[j],
    ensures
        answers[k] ==> decision(rules, answers) == !rules[k].line.negate,
        (forall|j: int| 0 <= j < answers.len() ==> !#[trigger] answers[j]) ==> !decision(
            rules,
            answers,
        ),
{
    if answers[k] {
        assert(last_yes(answers, k));
        assert forall|j: int| last_yes(answers, j) implies j == k by {
            if j < k {
                assert(!answers[k]);
            }
        }
    }
}

proof fn nesting_is_at_most_the_count(pattern: Seq<char>)
    ensures
        open_braces(pattern) <= count_of(pattern, '{'),
        deepest(pattern) <= count_of(pattern, '{'),
    decreases pattern.len(),
{
    if pattern.len() > 0 {
        nesting_is_at_most_the_count(pattern.drop_last());
    }
}

/// A path can be decided wherever the patterns that are asked about it are not too large: with no
/// more than 32768 characters and 80 opening braces a pattern never is. Rules that are not asked
/// do not matter.
pub proof fn ordinary_patterns_can_be_decided(
    rules: Seq<RuleModel>,
    path: Seq<char>,
    is_dir: bool,
)
    requires
        forall|i: int|
            0 <= i < rules.len() && asked(#[trigger] rules[i], path, is_dir) is Some ==> {
                &&& rules[i].line.pattern.len() <= 32768
                &&& rules[i].line.pattern.to_multiset().count('{') <= 80
            },
    ensures
        decidable(rules, path, is_dir),
{
    assert forall|i: int|
        0 <= i < rules.len() && asked(
            #[trigger] rules[i],
            path,
            is_dir,
        ) is Some implies answerable(rules[i].line.pattern) by {
        count_is_that_of_the_multiset(rules[i].line.pattern, '{');
        nesting_is_at_most_the_count(rules[i].line.pattern);
    }
}

} // verus!
