//! Strings as sequences of characters: the operations that the rest of the crate is built
//! from, each with an exact contract over the string's characters.

use vstd::prelude::*;
use vstd::seq_lib::*;
use vstd::string::*;
use vstd::utf8::*;

verus! {

/// `String::push` of std, which appends one character to a string. The contract says just that.
pub assume_specification[ String::push ](s: &mut String, ch: char)
    ensures
        final(s)@ == old(s)@.push(ch),
;

/// The characters of a string, in order.
pub fn chars_of(s: &str) -> (r: Vec<char>)
    ensures
        r@ == s@,
{
    let mut r: Vec<char> = Vec::new();
    for c in it: s.chars()
        invariant
            r@ == it.seq().take(it.index() as int),
            it.seq() == s@,
    {
        r.push(c);
    }
    r
}

/// The string made of the characters from index `from` up to, not including, index `to`.
pub fn string_of(chars: &Vec<char>, from: usize, to: usize) -> (r: String)
    requires
        from <= to <= chars@.len(),
    ensures
        r@ == chars@.subrange(from as int, to as int),
{
    let mut r = String::new();
    let mut i: usize = from;
    while i < to
        invariant
            from <= i <= to <= chars@.len(),
            r@ == chars@.subrange(from as int, i as int),
        decreases to - i,
    {
        r.push(chars[i]);
        i = i + 1;
    }
    r
}

/// Whether two strings hold the same characters.
pub fn str_eq(a: &str, b: &str) -> (r: bool)
    ensures
        r == (a@ == b@),
{
    let x = a.as_bytes();
    let y = b.as_bytes();
    proof {
        encode_utf8_decode_utf8(a@);
        encode_utf8_decode_utf8(b@);
    }
    if x.len() != y.len() {
        return false;
    }
    let mut i: usize = 0;
    while i < x.len()
        invariant
            i <= x@.len(),
            x@ == a.spec_bytes(),
            y@ == b.spec_bytes(),
            x@.len() == y@.len(),
            forall|j: int| 0 <= j < i ==> x@[j] == y@[j],
        decreases x@.len() - i,
    {
        if x[i] != y[i] {
            return false;
        }
        i = i + 1;
    }
    assert(x@ =~= y@);
    true
}

/// Whether `s` begins with `prefix`.
pub fn starts_with(s: &str, prefix: &str) -> (r: bool)
    ensures
        r == prefix@.is_prefix_of(s@),
{
    let x = chars_of(s);
    let y = chars_of(prefix);
    if y.len() > x.len() {
        return false;
    }
    let mut i: usize = 0;
    while i < y.len()
        invariant
            i <= y@.len() <= x@.len(),
            x@ == s@,
            y@ == prefix@,
            forall|j: int| 0 <= j < i ==> x@[j] == y@[j],
        decreases y@.len() - i,
    {
        if x[i] != y[i] {
            assert(x@.subrange(0, y@.len() as int)[i as int] != y@[i as int]);
            return false;
        }
        i = i + 1;
    }
    assert(y@ =~= x@.subrange(0, y@.len() as int));
    true
}

/// Whether the character `c` occurs in `s`.
pub fn contains_char(s: &str, c: char) -> (r: bool)
    ensures
        r == s@.contains(c),
{
    let x = chars_of(s);
    let mut i: usize = 0;
    while i < x.len()
        invariant
            i <= x@.len(),
            x@ == s@,
            forall|j: int| 0 <= j < i ==> x@[j] != c,
        decreases x@.len() - i,
    {
        if x[i] == c {
            return true;
        }
        i = i + 1;
    }
    false
}

/// How often the character `c` occurs in `s`.
pub open spec fn count_of(s: Seq<char>, c: char) -> nat
    decreases s.len(),
{
    if s.len() == 0 {
        0
    } else {
        count_of(s.drop_last(), c) + if s.last() == c {
            1nat
        } else {
            0
        }
    }
}

/// How often the character `c` occurs in `s`.
pub fn count_char(s: &str, c: char) -> (r: usize)
    ensures
        r == count_of(s@, c),
{
    let x = chars_of(s);
    let mut r: usize = 0;
    let mut i: usize = 0;
    assert(x@.take(0) =~= Seq::<char>::empty());
    while i < x.len()
        invariant
            i <= x@.len(),
            r <= i,
            r == count_of(x@.take(i as int), c),
        decreases x@.len() - i,
    {
        assert(x@.take(i + 1).drop_last() =~= x@.take(i as int));
        if x[i] == c {
            r = r + 1;
        }
        i = i + 1;
    }
    assert(x@.take(i as int) =~= x@);
    r
}

// ---------------------------------------------------------------------------------------------
// Search

/// Whether `pattern` stands in `s` at index `i`.
pub open spec fn occurs_at(s: Seq<char>, pattern: Seq<char>, i: int) -> bool {
    &&& 0 <= i
    &&& i + pattern.len() <= s.len()
    &&& s.subrange(i, i + pattern.len()) == pattern
}

/// The first index, from `i` on, at which `pattern` stands in `s`.
pub open spec fn find_from(s: Seq<char>, pattern: Seq<char>, i: int) -> Option<int>
    decreases s.len() + 1 - i,
{
    if i + pattern.len() > s.len() {
        None
    } else if occurs_at(s, pattern, i) {
        Some(i)
    } else {
        find_from(s, pattern, i + 1)
    }
}

/// `find_from` gives the least index at which the pattern stands, and none only where it stands
/// nowhere.
pub proof fn find_from_is_first(s: Seq<char>, pattern: Seq<char>, i: int)
    requires
        0 <= i,
    ensures
        match find_from(s, pattern, i) {
            Some(k) => i <= k && occurs_at(s, pattern, k) && forall|j: int|
                i <= j < k ==> !occurs_at(s, pattern, j),
            None => forall|j: int| i <= j ==> !occurs_at(s, pattern, j),
        },
    decreases s.len() + 1 - i,
{
    if i + pattern.len() <= s.len() && !occurs_at(s, pattern, i) {
        find_from_is_first(s, pattern, i + 1);
    }
}

/// Whether the characters `pattern` stand in `s` at index `i`.
pub fn stands_at(s: &Vec<char>, pattern: &Vec<char>, i: usize) -> (r: bool)
    ensures
        r == occurs_at(s@, pattern@, i as int),
{
    if i > s.len() || pattern.len() > s.len() - i {
        return false;
    }
    let mut j: usize = 0;
    while j < pattern.len()
        invariant
            j <= pattern@.len(),
            i + pattern@.len() <= s@.len() <= usize::MAX,
            forall|k: int| 0 <= k < j ==> s@[i + k] == pattern@[k],
        decreases pattern@.len() - j,
    {
        if s[i + j] != pattern[j] {
            assert(s@.subrange(i as int, i + pattern@.len())[j as int] != pattern@[j as int]);
            return false;
        }
        j = j + 1;
    }
    assert(s@.subrange(i as int, i + pattern@.len()) =~= pattern@);
    true
}

/// The first index, from `from` on, at which the characters `pattern` stand in `s`.
pub fn find_in(s: &Vec<char>, pattern: &Vec<char>, from: usize) -> (r: Option<usize>)
    ensures
        match r {
            Some(k) => find_from(s@, pattern@, from as int) == Some(k as int),
            None => find_from(s@, pattern@, from as int) is None,
        },
{
    let mut i: usize = from;
    while i <= s.len() && pattern.len() <= s.len() - i
        invariant
            from <= i,
            find_from(s@, pattern@, from as int) == find_from(s@, pattern@, i as int),
        decreases s@.len() - i + 1,
    {
        if stands_at(s, pattern, i) {
            return Some(i);
        }
        assert(i < s@.len()) by {
            if i == s@.len() {
                assert(s@.subrange(i as int, i + pattern@.len()) =~= pattern@);
            }
        }
        i = i + 1;
    }
    None
}

// ---------------------------------------------------------------------------------------------
// White space

/// The characters that Unicode counts as white space.
pub open spec fn is_whitespace(c: char) -> bool {
    let u = c as u32;
    ||| 0x09 <= u <= 0x0d
    ||| u == 0x20
    ||| u == 0x85
    ||| u == 0xa0
    ||| u == 0x1680
    ||| 0x2000 <= u <= 0x200a
    ||| u == 0x2028
    ||| u == 0x2029
    ||| u == 0x202f
    ||| u == 0x205f
    ||| u == 0x3000
}

/// Whether `c` is white space.
pub fn char_is_whitespace(c: char) -> (r: bool)
    ensures
        r == is_whitespace(c),
{
    let u: u32 = c as u32;
    (0x09 <= u && u <= 0x0d) || u == 0x20 || u == 0x85 || u == 0xa0 || u == 0x1680 || (0x2000 <= u
        && u <= 0x200a) || u == 0x2028 || u == 0x2029 || u == 0x202f || u == 0x205f || u == 0x3000
}

/// `s` without the white space that it begins with.
pub open spec fn trim_start(s: Seq<char>) -> Seq<char>
    decreases s.len(),
{
    if s.len() > 0 && is_whitespace(s[0]) {
        trim_start(s.skip(1))
    } else {
        s
    }
}

/// `s` without the white space that it ends with.
pub open spec fn trim_end(s: Seq<char>) -> Seq<char>
    decreases s.len(),
{
    if s.len() > 0 && is_whitespace(s.last()) {
        trim_end(s.drop_last())
    } else {
        s
    }
}

/// `s` without the white space at its two ends.
pub open spec fn trimmed(s: Seq<char>) -> Seq<char> {
    trim_end(trim_start(s))
}

/// `s` without the white space at its two ends.
pub fn trim(s: &str) -> (r: String)
    ensures
        r@ == trimmed(s@),
{
    let x = chars_of(s);
    let n: usize = x.len();
    let mut a: usize = 0;
    assert(x@.skip(0) =~= x@);
    while a < n && char_is_whitespace(x[a])
        invariant
            a <= n == x@.len(),
            trim_start(x@) == trim_start(x@.skip(a as int)),
        decreases n - a,
    {
        assert(x@.skip(a as int).skip(1) =~= x@.skip(a + 1));
        a = a + 1;
    }
    assert(trim_start(x@) == x@.skip(a as int));
    let mut b: usize = n;
    assert(x@.subrange(a as int, n as int) =~= x@.skip(a as int));
    while b > a && char_is_whitespace(x[b - 1])
        invariant
            a <= b <= n == x@.len(),
            trimmed(x@) == trim_end(x@.subrange(a as int, b as int)),
        decreases b,
    {
        assert(x@.subrange(a as int, b as int).drop_last() =~= x@.subrange(a as int, b - 1));
        b = b - 1;
    }
    string_of(&x, a, b)
}

// ---------------------------------------------------------------------------------------------
// Lines

/// The index of the first line feed of `s`, or the length of `s` where it has none.
pub open spec fn line_end(s: Seq<char>) -> nat
    decreases s.len(),
{
    if s.len() == 0 || s[0] == '\n' {
        0
    } else {
        1 + line_end(s.skip(1))
    }
}

/// A line that a line feed ended, without the carriage return that may stand before it.
pub open spec fn without_carriage_return(line: Seq<char>) -> Seq<char> {
    if line.len() > 0 && line.last() == '\r' {
        line.drop_last()
    } else {
        line
    }
}

/// The lines of `s`, without their endings. A line ends with a line feed, which a carriage
/// return may precede; the last line need not have an ending.
pub open spec fn lines(s: Seq<char>) -> Seq<Seq<char>>
    decreases s.len(),
{
    proof {
        line_end_is_first(s);
    }
    let k = line_end(s) as int;
    if s.len() == 0 {
        seq![]
    } else if k == s.len() {
        seq![s]
    } else {
        seq![without_carriage_return(s.take(k))] + lines(s.skip(k + 1))
    }
}

/// `line_end` is the index of the first line feed.
pub proof fn line_end_is_first(s: Seq<char>)
    ensures
        line_end(s) <= s.len(),
        line_end(s) < s.len() ==> s[line_end(s) as int] == '\n',
        forall|i: int| 0 <= i < line_end(s) ==> s[i] != '\n',
    decreases s.len(),
{
    if s.len() > 0 && s[0] != '\n' {
        let t = s.skip(1);
        line_end_is_first(t);
        assert forall|i: int| 0 <= i < line_end(s) implies s[i] != '\n' by {
            if i > 0 {
                assert(t[i - 1] == s[i]);
            }
        }
    }
}

proof fn line_end_at(s: Seq<char>, k: int)
    requires
        0 <= k <= s.len(),
        k < s.len() ==> s[k] == '\n',
        forall|i: int| 0 <= i < k ==> s[i] != '\n',
    ensures
        line_end(s) == k,
{
    line_end_is_first(s);
    if line_end(s) < k {
        assert(s[line_end(s) as int] == '\n');
    } else if line_end(s) > k {
        assert(s[k] != '\n');
    }
}

/// The lines of `s`.
pub fn lines_of(s: &str) -> (r: Vec<String>)
    ensures
        r.deep_view() == lines(s@),
{
    let x = chars_of(s);
    let n: usize = x.len();
    let mut r: Vec<String> = Vec::new();
    let mut start: usize = 0;
    let mut i: usize = 0;
    assert(x@.skip(0) =~= x@);
    assert(r.deep_view() + lines(x@) =~= lines(x@));
    while i < n
        invariant
            start <= i <= n == x@.len(),
            x@ == s@,
            r.deep_view() + lines(x@.skip(start as int)) == lines(x@),
            forall|j: int| start <= j < i ==> x@[j] != '\n',
        decreases n - i,
    {
        if x[i] == '\n' {
            let ghost rest = x@.skip(start as int);
            let end: usize = if i > start && x[i - 1] == '\r' {
                i - 1
            } else {
                i
            };
            let ghost before = r.deep_view();
            r.push(string_of(&x, start, end));
            proof {
                line_end_at(rest, i - start);
                assert(rest.take(i - start) =~= x@.subrange(start as int, i as int));
                assert(without_carriage_return(rest.take(i - start)) =~= x@.subrange(
                    start as int,
                    end as int,
                ));
                assert(rest.skip(i - start + 1) =~= x@.skip(i + 1));
                assert(r.deep_view() =~= before.push(x@.subrange(start as int, end as int)));
                assert(lines(rest) == seq![x@.subrange(start as int, end as int)] + lines(
                    x@.skip(i + 1),
                ));
                assert(before + lines(rest) =~= r.deep_view() + lines(x@.skip(i + 1)));
            }
            start = i + 1;
        }
        i = i + 1;
    }
    let ghost rest = x@.skip(start as int);
    proof {
        line_end_at(rest, n - start);
    }
    if start < n {
        let ghost before = r.deep_view();
        r.push(string_of(&x, start, n));
        proof {
            assert(x@.subrange(start as int, n as int) =~= rest);
            assert(lines(rest) == seq![rest]);
            assert(r.deep_view() =~= before + lines(rest));
        }
    } else {
        assert(lines(rest) =~= seq![]);
        assert(r.deep_view() =~= r.deep_view() + lines(rest));
    }
    r
}

// ---------------------------------------------------------------------------------------------
// Joining

/// The first `n` of `parts`, with `sep` between each two.
pub open spec fn join_first(parts: Seq<Seq<char>>, sep: Seq<char>, n: int) -> Seq<char>
    decreases n,
{
    if n <= 0 {
        seq![]
    } else if n == 1 {
        parts[0]
    } else {
        join_first(parts, sep, n - 1) + sep + parts[n - 1]
    }
}

/// All of `parts`, with `sep` between each two.
pub open spec fn join(parts: Seq<Seq<char>>, sep: Seq<char>) -> Seq<char> {
    join_first(parts, sep, parts.len() as int)
}

/// The strings of `parts`, with `sep` between each two.
pub fn join_strings(parts: &Vec<String>, sep: &str) -> (r: String)
    ensures
        r@ == join(parts.deep_view(), sep@),
{
    let mut r = String::new();
    let mut i: usize = 0;
    while i < parts.len()
        invariant
            i <= parts@.len(),
            r@ == join_first(parts.deep_view(), sep@, i as int),
        decreases parts@.len() - i,
    {
        if i > 0 {
            r.append(sep);
        }
        r.append(parts[i].as_str());
        i = i + 1;
    }
    r
}

// ---------------------------------------------------------------------------------------------
// Numbers

/// The character of a decimal digit.
pub open spec fn digit(d: nat) -> char {
    (48 + d) as u8 as char
}

/// `n` in decimal, without leading zeros.
pub open spec fn decimal(n: nat) -> Seq<char>
    decreases n,
{
    if n < 10 {
        seq![digit(n)]
    } else {
        decimal(n / 10).push(digit(n % 10))
    }
}

/// `n` in decimal.
pub fn decimal_string(n: u64) -> (r: String)
    ensures
        r@ == decimal(n as nat),
    decreases n,
{
    let mut r = if n < 10 {
        String::new()
    } else {
        decimal_string(n / 10)
    };
    let d: u8 = 48 + (n % 10) as u8;
    r.push(d as char);
    assert(r@ =~= decimal(n as nat));
    r
}

// ---------------------------------------------------------------------------------------------
// Order

/// The order of strings: by their characters from the left, a string before its extensions.
pub open spec fn at_most(a: Seq<char>, b: Seq<char>) -> bool
    decreases a.len(),
{
    if a.len() == 0 {
        true
    } else if b.len() == 0 {
        false
    } else if a[0] == b[0] {
        at_most(a.skip(1), b.skip(1))
    } else {
        a[0] < b[0]
    }
}

/// Whether `a` stands at or before `b` in the order of strings.
pub fn str_at_most(a: &str, b: &str) -> (r: bool)
    ensures
        r == at_most(a@, b@),
{
    let x = chars_of(a);
    let y = chars_of(b);
    let mut i: usize = 0;
    assert(x@.skip(0) =~= x@ && y@.skip(0) =~= y@);
    while i < x.len() && i < y.len()
        invariant
            i <= x@.len(),
            i <= y@.len(),
            x@ == a@,
            y@ == b@,
            at_most(x@, y@) == at_most(x@.skip(i as int), y@.skip(i as int)),
        decreases x@.len() - i,
    {
        if x[i] != y[i] {
            return x[i] < y[i];
        }
        assert(x@.skip(i as int).skip(1) =~= x@.skip(i + 1));
        assert(y@.skip(i as int).skip(1) =~= y@.skip(i + 1));
        i = i + 1;
    }
    i == x.len()
}

/// The order of strings is total.
pub proof fn at_most_total(a: Seq<char>, b: Seq<char>)
    ensures
        at_most(a, b) || at_most(b, a),
    decreases a.len(),
{
    if a.len() > 0 && b.len() > 0 && a[0] == b[0] {
        at_most_total(a.skip(1), b.skip(1));
    }
}

/// Two strings that stand at or before each other are the same.
pub proof fn at_most_antisymmetric(a: Seq<char>, b: Seq<char>)
    requires
        at_most(a, b),
        at_most(b, a),
    ensures
        a == b,
    decreases a.len(),
{
    if a.len() > 0 && b.len() > 0 {
        at_most_antisymmetric(a.skip(1), b.skip(1));
        assert(a =~= seq![a[0]] + a.skip(1));
        assert(b =~= seq![b[0]] + b.skip(1));
    } else {
        assert(a =~= b);
    }
}

/// The order of strings is transitive.
pub proof fn at_most_transitive(a: Seq<char>, b: Seq<char>, c: Seq<char>)
    requires
        at_most(a, b),
        at_most(b, c),
    ensures
        at_most(a, c),
    decreases a.len(),
{
    if a.len() > 0 && a[0] == b[0] && b[0] == c[0] {
        at_most_transitive(a.skip(1), b.skip(1), c.skip(1));
    }
}

// ---------------------------------------------------------------------------------------------
// Laws

/// A pattern stands in a text right behind whatever comes before it.
pub proof fn pattern_stands_where_it_was_put(before: Seq<char>, pattern: Seq<char>, after: Seq<char>)
    ensures
        occurs_at(before + pattern + after, pattern, before.len() as int),
{
    let s = before + pattern + after;
    assert(s.subrange(before.len() as int, before.len() as int + pattern.len()) =~= pattern);
}

/// A text in which a pattern stands is what comes before it, the pattern, and what comes after it.
pub proof fn text_is_split_at_a_pattern(s: Seq<char>, pattern: Seq<char>, i: int)
    requires
        occurs_at(s, pattern, i),
    ensures
        0 <= i <= s.len(),
        s == s.take(i) + pattern + s.skip(i + pattern.len()),
{
    assert forall|k: int| 0 <= k < pattern.len() implies s[i + k] == pattern[k] by {
        assert(s.subrange(i, i + pattern.len())[k] == s[i + k]);
    }
    assert(s =~= s.take(i) + pattern + s.skip(i + pattern.len()));
}

/// A character is counted as often as it is in the multiset of a text's characters.
pub proof fn count_is_that_of_the_multiset(s: Seq<char>, c: char)
    ensures
        count_of(s, c) == s.to_multiset().count(c),
    decreases s.len(),
{
    to_multiset_len(s);
    if s.len() > 0 {
        let init = s.drop_last();
        count_is_that_of_the_multiset(init, c);
        to_multiset_build(init, s.last());
        assert(init.push(s.last()) =~= s);
    }
}

/// Whether there is nothing but white space in a text.
pub open spec fn blank(s: Seq<char>) -> bool {
    forall|i: int| 0 <= i < s.len() ==> is_whitespace(#[trigger] s[i])
}

/// Trimming at the start takes off the white space that a text begins with.
pub proof fn trim_start_of_composed(before: Seq<char>, rest: Seq<char>)
    requires
        blank(before),
        rest.len() == 0 || !is_whitespace(rest[0]),
    ensures
        trim_start(before + rest) == rest,
    decreases before.len(),
{
    if before.len() == 0 {
        assert(before + rest =~= rest);
    } else {
        let s = before + rest;
        assert(is_whitespace(before[0]));
        assert(s.skip(1) =~= before.skip(1) + rest);
        assert forall|i: int| 0 <= i < before.skip(1).len() implies is_whitespace(
            #[trigger] before.skip(1)[i],
        ) by {
            assert(is_whitespace(before[i + 1]));
        }
        trim_start_of_composed(before.skip(1), rest);
    }
}

proof fn trim_end_of_composed(core: Seq<char>, after: Seq<char>)
    requires
        blank(after),
        core.len() == 0 || !is_whitespace(core.last()),
    ensures
        trim_end(core + after) == core,
    decreases after.len(),
{
    if after.len() == 0 {
        assert(core + after =~= core);
    } else {
        let s = core + after;
        let init = after.drop_last();
        assert(is_whitespace(after[after.len() - 1]));
        assert(s.drop_last() =~= core + init);
        assert forall|i: int| 0 <= i < init.len() implies is_whitespace(#[trigger] init[i]) by {
            assert(is_whitespace(after[i]));
        }
        trim_end_of_composed(core, init);
    }
}

/// Trimming takes off the white space around a text, all of it and nothing else.
pub proof fn trimming_takes_off_the_ends(before: Seq<char>, core: Seq<char>, after: Seq<char>)
    requires
        blank(before),
        blank(after),
        core.len() > 0 ==> !is_whitespace(core[0]) && !is_whitespace(core.last()),
    ensures
        trimmed(before + core + after) == core,
{
    if core.len() == 0 {
        let all = before + core + after;
        assert(all =~= all + core);
        assert forall|i: int| 0 <= i < all.len() implies is_whitespace(#[trigger] all[i]) by {
            if i < before.len() {
                assert(is_whitespace(before[i]));
            } else {
                assert(is_whitespace(after[i - before.len()]));
            }
        }
        trim_start_of_composed(all, core);
        trim_end_of_composed(core, core);
        assert(core + core =~= core);
    } else {
        assert(before + core + after =~= before + (core + after));
        trim_start_of_composed(before, core + after);
        trim_end_of_composed(core, after);
    }
}

/// A text with something in it besides white space is not empty when it is trimmed, and any other
/// is.
pub proof fn blank_text_is_trimmed_away(s: Seq<char>)
    ensures
        trimmed(s).len() == 0 <==> blank(s),
    decreases s.len(),
{
    if blank(s) {
        trimming_takes_off_the_ends(s, seq![], seq![]);
        assert(s + Seq::<char>::empty() + Seq::<char>::empty() =~= s);
    } else {
        let k = choose|k: int| 0 <= k < s.len() && !is_whitespace(#[trigger] s[k]);
        not_blank_after_trim_start(s, k);
        let t = trim_start(s);
        let j = choose|j: int| 0 <= j < t.len() && !is_whitespace(#[trigger] t[j]);
        not_blank_after_trim_end(t, j);
    }
}

proof fn not_blank_after_trim_start(s: Seq<char>, k: int)
    requires
        0 <= k < s.len(),
        !is_whitespace(s[k]),
    ensures
        !blank(trim_start(s)),
    decreases s.len(),
{
    if is_whitespace(s[0]) {
        not_blank_after_trim_start(s.skip(1), k - 1);
    } else {
        assert(!is_whitespace(s[k]));
    }
}

proof fn not_blank_after_trim_end(s: Seq<char>, k: int)
    requires
        0 <= k < s.len(),
        !is_whitespace(s[k]),
    ensures
        trim_end(s).len() > 0,
    decreases s.len(),
{
    if is_whitespace(s.last()) {
        not_blank_after_trim_end(s.drop_last(), k);
    }
}

/// A text that begins with a line and a line feed has that line, without a carriage return at its
/// end, and then the lines of the rest. A text without a line feed is one line as it is, or none
/// where it is empty.
pub proof fn lines_of_composed_text(line: Seq<char>, rest: Seq<char>)
    requires
        forall|i: int| 0 <= i < line.len() ==> #[trigger] line[i] != '\n',
    ensures
        lines(line + seq!['\n'] + rest) == seq![
            if line.len() > 0 && line.last() == '\r' {
                line.drop_last()
            } else {
                line
            },
        ] + lines(rest),
        lines(line) == if line.len() == 0 {
            seq![]
        } else {
            seq![line]
        },
{
    let s = line + seq!['\n'] + rest;
    line_end_at(s, line.len() as int);
    assert(s.take(line.len() as int) =~= line);
    assert(s.skip(line.len() as int + 1) =~= rest);
    line_end_at(line, line.len() as int);
}

/// Nothing joined is nothing, one part joined is that part, and parts are joined by the separator
/// wherever they are divided.
pub proof fn joining_puts_the_separator_between(
    first: Seq<Seq<char>>,
    rest: Seq<Seq<char>>,
    part: Seq<char>,
    sep: Seq<char>,
)
    requires
        first.len() > 0,
        rest.len() > 0,
    ensures
        join(seq![], sep) == Seq::<char>::empty(),
        join(seq![part], sep) == part,
        join(first + rest, sep) == join(first, sep) + sep + join(rest, sep),
    decreases rest.len(),
{
    let all = first + rest;
    let n = rest.len() as int;
    join_first_is_of_the_first(all, first, sep, first.len() as int);
    if n == 1 {
        assert(join(rest, sep) == rest[0]);
        assert(all[all.len() - 1] == rest[0]);
        assert(join_first(all, sep, all.len() - 1) == join(first, sep));
    } else {
        let init = rest.drop_last();
        joining_puts_the_separator_between(first, init, part, sep);
        join_first_is_of_the_first(all, first + init, sep, all.len() - 1);
        join_first_is_of_the_first(rest, init, sep, n - 1);
        assert(all[all.len() - 1] == rest[n - 1]);
        assert(join(all, sep) == join(first + init, sep) + sep + rest[n - 1]);
        assert(join(rest, sep) == join(init, sep) + sep + rest[n - 1]);
        assert(join(all, sep) =~= join(first, sep) + sep + join(rest, sep));
    }
}

proof fn join_first_is_of_the_first(a: Seq<Seq<char>>, b: Seq<Seq<char>>, sep: Seq<char>, n: int)
    requires
        0 <= n <= a.len(),
        n <= b.len(),
        forall|i: int| 0 <= i < n ==> a[i] == #[trigger] b[i],
    ensures
        join_first(a, sep, n) == join_first(b, sep, n),
    decreases n,
{
    if n > 0 {
        assert(a[n - 1] == b[n - 1]);
        join_first_is_of_the_first(a, b, sep, n - 1);
        assert(a[0] == b[0]);
    }
}

/// The number that decimal digits write.
pub open spec fn number(digits: Seq<char>) -> int
    decreases digits.len(),
{
    if digits.len() == 0 {
        0
    } else {
        10 * number(digits.drop_last()) + (digits.last() as int - '0' as int)
    }
}

/// A number is written in decimal digits that read as the number again, with no zero too many in
/// front.
pub proof fn decimal_reads_as_its_number(n: nat)
    ensures
        number(decimal(n)) == n,
        decimal(n).len() > 0,
        forall|i: int| 0 <= i < decimal(n).len() ==> '0' <= #[trigger] decimal(n)[i] <= '9',
        decimal(n)[0] == '0' ==> n == 0,
    decreases n,
{
    if n < 10 {
        let s = decimal(n);
        assert(s =~= seq![digit(n)]);
        assert(digit(n) as int == 48 + n);
        assert(s.drop_last() =~= Seq::<char>::empty());
        assert(number(s.drop_last()) == 0);
    } else {
        decimal_reads_as_its_number(n / 10);
        let front = decimal(n / 10);
        let s = decimal(n);
        assert(s == front.push(digit(n % 10)));
        assert(digit(n % 10) as int == 48 + n % 10);
        assert(s.drop_last() =~= front);
        assert(s[0] == front[0]);
        assert forall|i: int| 0 <= i < s.len() implies '0' <= #[trigger] s[i] <= '9' by {
            if i < front.len() {
                assert(s[i] == front[i]);
            }
        }
    }
}

/// The first character in which two strings differ decides their order, and a string stands before
/// what extends it.
pub proof fn first_difference_decides(
    common: Seq<char>,
    x: char,
    y: char,
    s: Seq<char>,
    t: Seq<char>,
)
    requires
        x < y,
    ensures
        at_most(common + seq![x] + s, common + seq![y] + t),
        !at_most(common + seq![y] + t, common + seq![x] + s),
        at_most(common, common + s),
        s.len() > 0 ==> !at_most(common + s, common),
    decreases common.len(),
{
    let a = common + seq![x] + s;
    let b = common + seq![y] + t;
    if common.len() > 0 {
        let rest = common.skip(1);
        first_difference_decides(rest, x, y, s, t);
        assert(a.skip(1) =~= rest + seq![x] + s);
        assert(b.skip(1) =~= rest + seq![y] + t);
        assert((common + s).skip(1) =~= rest + s);
        assert(a[0] == common[0] && b[0] == common[0]);
    } else {
        assert(a[0] == x && b[0] == y);
    }
}

/// Trimming at the end leaves a first character that is no white space where it is.
pub proof fn trim_end_keeps_the_start(s: Seq<char>)
    requires
        s.len() > 0,
        !is_whitespace(s[0]),
    ensures
        trim_end(s).len() > 0,
        trim_end(s)[0] == s[0],
    decreases s.len(),
{
    if is_whitespace(s.last()) {
        trim_end_keeps_the_start(s.drop_last());
    }
}

/// White space at the end of a text makes no difference to what is left of it.
pub proof fn trimming_ignores_space_at_the_end(s: Seq<char>, c: char)
    requires
        is_whitespace(c),
    ensures
        trimmed(s.push(c)) == trimmed(s),
    decreases s.len(),
{
    let t = s.push(c);
    if s.len() == 0 {
        assert(blank(s) && blank(t));
        blank_text_is_trimmed_away(s);
        blank_text_is_trimmed_away(t);
        assert(trimmed(s) =~= trimmed(t));
    } else if is_whitespace(s[0]) {
        assert(t.skip(1) =~= s.skip(1).push(c));
        trimming_ignores_space_at_the_end(s.skip(1), c);
    } else {
        assert(t.drop_last() =~= s);
    }
}

} // verus!
