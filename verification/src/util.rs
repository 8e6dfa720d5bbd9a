//! Text utilities: cutting a text to a length in bytes, and splitting frontmatter from a body.

use vstd::prelude::*;
use vstd::string::*;
use vstd::utf8::*;

use crate::text::chars_of;
use crate::text::find_from;
use crate::text::find_from_is_first;
use crate::text::find_in;
use crate::text::occurs_at;
use crate::text::stands_at;
use crate::text::string_of;

verus! {

// ---------------------------------------------------------------------------------------------
// Truncation

/// The number of bytes of `s` in UTF-8.
pub open spec fn byte_len(s: Seq<char>) -> nat {
    encode_utf8(s).len()
}

/// The number of bytes of one character in UTF-8.
pub open spec fn byte_width(c: char) -> nat {
    encode_scalar(c as u32).len()
}

/// How many characters from the start of `s` take no more than `n` bytes together.
pub open spec fn prefix_within(s: Seq<char>, n: int) -> nat
    decreases s.len(),
{
    if s.len() == 0 || byte_width(s[0]) > n {
        0
    } else {
        1 + prefix_within(s.skip(1), n - byte_width(s[0]))
    }
}

/// The bytes that a text cut to `max_len` bytes has left for itself beside the ellipsis.
pub open spec fn room(max_len: nat, ellipsis: Seq<char>) -> nat {
    if max_len < byte_len(ellipsis) {
        0
    } else {
        (max_len - byte_len(ellipsis)) as nat
    }
}

/// `s` where it takes no more than `max_len` bytes, else as many whole characters of it as leave
/// room for the ellipsis, and the ellipsis.
pub open spec fn truncated(s: Seq<char>, max_len: nat, ellipsis: Seq<char>) -> Seq<char> {
    if byte_len(s) <= max_len {
        s
    } else {
        s.take(prefix_within(s, room(max_len, ellipsis) as int) as int) + ellipsis
    }
}

fn char_width(c: char) -> (r: usize)
    ensures
        r == byte_width(c),
{
    let u: u32 = c as u32;
    if u < 0x80 {
        1
    } else if u < 0x800 {
        2
    } else if u < 0x10000 {
        3
    } else {
        4
    }
}

/// Cuts `s` to `max_len` bytes where it is longer, never inside a character, and marks the cut
/// with `ellipsis`.
pub fn truncate_with_ellipsis(s: &str, max_len: usize, ellipsis: &str) -> (r: String)
    ensures
        r@ == truncated(s@, max_len as nat, ellipsis@),
{
    if s.as_bytes().len() <= max_len {
        return s.to_owned();
    }
    let mark: usize = ellipsis.as_bytes().len();
    let cut: usize = if max_len < mark {
        0
    } else {
        max_len - mark
    };
    let x = chars_of(s);
    let mut k: usize = 0;
    let mut left: usize = cut;
    assert(x@.skip(0) =~= x@);
    while k < x.len() && char_width(x[k]) <= left
        invariant
            k <= x@.len(),
            prefix_within(x@, cut as int) == k + prefix_within(x@.skip(k as int), left as int),
        decreases x@.len() - k,
    {
        assert(x@.skip(k as int).skip(1) =~= x@.skip(k + 1));
        left = left - char_width(x[k]);
        k = k + 1;
    }
    let mut r = string_of(&x, 0, k);
    assert(r@ =~= s@.take(k as int));
    r.append(ellipsis);
    r
}

proof fn byte_len_step(s: Seq<char>)
    requires
        s.len() > 0,
    ensures
        byte_len(s) == byte_width(s[0]) + byte_len(s.skip(1)),
{
    assert(s.drop_first() =~= s.skip(1));
}

/// The bytes of a text are the bytes of its parts.
pub proof fn byte_len_concat(a: Seq<char>, b: Seq<char>)
    ensures
        byte_len(a + b) == byte_len(a) + byte_len(b),
    decreases a.len(),
{
    if a.len() == 0 {
        assert(a + b =~= b);
    } else {
        byte_len_step(a);
        byte_len_step(a + b);
        assert((a + b).skip(1) =~= a.skip(1) + b);
        byte_len_concat(a.skip(1), b);
    }
}

/// `prefix_within` counts the longest prefix that fits: the prefix takes no more than `n` bytes,
/// and with one more character it would.
pub proof fn prefix_within_is_longest(s: Seq<char>, n: nat)
    ensures
        prefix_within(s, n as int) <= s.len(),
        byte_len(s.take(prefix_within(s, n as int) as int)) <= n,
        prefix_within(s, n as int) < s.len() ==> byte_len(
            s.take(prefix_within(s, n as int) as int + 1),
        ) > n,
    decreases s.len(),
{
    let k = prefix_within(s, n as int) as int;
    if s.len() == 0 {
        assert(s.take(0) =~= s);
    } else if byte_width(s[0]) > n {
        assert(s.take(0) =~= Seq::<char>::empty());
        byte_len_step(s.take(1));
        assert(s.take(1).skip(1) =~= Seq::<char>::empty());
    } else {
        let t = s.skip(1);
        prefix_within_is_longest(t, (n - byte_width(s[0])) as nat);
        byte_len_step(s.take(k));
        assert(s.take(k).skip(1) =~= t.take(k - 1));
        if k < s.len() {
            byte_len_step(s.take(k + 1));
            assert(s.take(k + 1).skip(1) =~= t.take(k));
        }
    }
}

/// A text that fits is left as it is.
pub proof fn truncation_leaves_short_text(s: Seq<char>, max_len: nat, ellipsis: Seq<char>)
    requires
        byte_len(s) <= max_len,
    ensures
        truncated(s, max_len, ellipsis) == s,
{
}

/// Where the ellipsis itself fits, a truncated text takes no more than `max_len` bytes.
pub proof fn truncation_fits(s: Seq<char>, max_len: nat, ellipsis: Seq<char>)
    requires
        byte_len(ellipsis) <= max_len,
    ensures
        byte_len(truncated(s, max_len, ellipsis)) <= max_len,
{
    if byte_len(s) > max_len {
        let k = prefix_within(s, room(max_len, ellipsis) as int) as int;
        prefix_within_is_longest(s, room(max_len, ellipsis));
        byte_len_concat(s.take(k), ellipsis);
    }
}

/// A text that does not fit keeps the longest prefix of whole characters that leaves room for the
/// ellipsis.
pub proof fn truncation_keeps_longest_prefix(s: Seq<char>, max_len: nat, ellipsis: Seq<char>)
    requires
        byte_len(s) > max_len,
    ensures
        exists|k: int|
            0 <= k < s.len() && #[trigger] s.take(k) + ellipsis == truncated(s, max_len, ellipsis)
                && byte_len(s.take(k)) <= room(max_len, ellipsis) && byte_len(s.take(k + 1)) > room(
                max_len,
                ellipsis,
            ),
{
    let k = prefix_within(s, room(max_len, ellipsis) as int) as int;
    prefix_within_is_longest(s, room(max_len, ellipsis));
    if k == s.len() {
        assert(s.take(k) =~= s);
    }
    assert(s.take(k) + ellipsis == truncated(s, max_len, ellipsis));
}

/// A text of no more than `max_len` bytes is left as it is. Of any other as many characters are
/// kept, from its start, as fit into `max_len` bytes together with the ellipsis, and the ellipsis
/// follows them; where not even one fits, the ellipsis stands alone.
pub proof fn cut_text_is_as_long_as_can_be(s: Seq<char>, max_len: nat, ellipsis: Seq<char>)
    ensures
        encode_utf8(s).len() <= max_len ==> truncated(s, max_len, ellipsis) == s,
        encode_utf8(s).len() > max_len ==> exists|k: int|
            {
                &&& 0 <= k < s.len()
                &&& truncated(s, max_len, ellipsis) == #[trigger] s.take(k) + ellipsis
                &&& k > 0 ==> encode_utf8(s.take(k)).len() + encode_utf8(ellipsis).len() <= max_len
                &&& encode_utf8(s.take(k + 1)).len() + encode_utf8(ellipsis).len() > max_len
            },
{
    if encode_utf8(s).len() > max_len {
        let k = prefix_within(s, room(max_len, ellipsis) as int) as int;
        prefix_within_is_longest(s, room(max_len, ellipsis));
        if k == s.len() {
            assert(s.take(k) =~= s);
        }
        if k > 0 {
            byte_len_step(s.take(k));
        }
        assert(truncated(s, max_len, ellipsis) == s.take(k) + ellipsis);
    }
}

// ---------------------------------------------------------------------------------------------
// Frontmatter

/// What follows the opening delimiter of frontmatter, where `raw` begins with one.
pub open spec fn after_opening(raw: Seq<char>) -> Option<Seq<char>> {
    if occurs_at(raw, "---\n"@, 0) {
        Some(raw.skip(4))
    } else if occurs_at(raw, "---\r\n"@, 0) {
        Some(raw.skip(5))
    } else {
        None
    }
}

/// The frontmatter and the body of `raw`: between the opening delimiter and the first closing
/// one, and after the closing one.
pub open spec fn frontmatter(raw: Seq<char>) -> Option<(Seq<char>, Seq<char>)> {
    match after_opening(raw) {
        None => None,
        Some(rest) => match find_from(rest, "\n---"@, 0) {
            None => None,
            Some(close) => Some((rest.take(close), rest.skip(close + 4))),
        },
    }
}

/// Splits YAML-style frontmatter (`---\n...\n---`) from the body: the text of the frontmatter and
/// the raw remainder after the closing delimiter, or `None` where the document has no
/// frontmatter.
pub fn split_frontmatter(raw: &str) -> (r: Option<(&str, &str)>)
    ensures
        match r {
            Some((meta, body)) => frontmatter(raw@) == Some((meta@, body@)),
            None => frontmatter(raw@) is None,
        },
{
    proof {
        reveal_strlit("---\n");
        reveal_strlit("---\r\n");
        reveal_strlit("\n---");
    }
    let x = chars_of(raw);
    let n: usize = x.len();
    let start: usize = if stands_at(&x, &chars_of("---\n"), 0) {
        4
    } else if stands_at(&x, &chars_of("---\r\n"), 0) {
        5
    } else {
        return None;
    };
    let ghost rest = raw@.skip(start as int);
    assert(after_opening(raw@) == Some(rest));
    proof {
        find_from_shift(x@, "\n---"@, start as int, 0);
    }
    match find_in(&x, &chars_of("\n---"), start) {
        None => None,
        Some(close) => {
            proof {
                find_from_is_first(x@, "\n---"@, start as int);
                assert(rest.take(close - start) =~= raw@.subrange(start as int, close as int));
                assert(rest.skip(close - start + 4) =~= raw@.subrange(close + 4, n as int));
            }
            Some((raw.substring_char(start, close), raw.substring_char(close + 4, n)))
        },
    }
}

/// Searching after `by` characters is searching in what follows them.
proof fn find_from_shift(s: Seq<char>, pattern: Seq<char>, by: int, i: int)
    requires
        0 <= by <= s.len(),
        0 <= i,
    ensures
        find_from(s.skip(by), pattern, i) == match find_from(s, pattern, by + i) {
            Some(k) => Some(k - by),
            None => None,
        },
    decreases s.len() + 1 - i,
{
    if by + i + pattern.len() <= s.len() {
        assert(s.skip(by).subrange(i, i + pattern.len()) =~= s.subrange(
            by + i,
            by + i + pattern.len(),
        ));
        if !occurs_at(s, pattern, by + i) {
            find_from_shift(s, pattern, by, i + 1);
        }
    }
}

/// What is split can be put together again: the document is its opening delimiter, the
/// frontmatter, the closing delimiter and the body; and the frontmatter holds no closing
/// delimiter.
pub proof fn frontmatter_parts_make_the_document(raw: Seq<char>, meta: Seq<char>, body: Seq<char>)
    requires
        frontmatter(raw) == Some((meta, body)),
    ensures
        raw == "---\n"@ + meta + "\n---"@ + body || raw == "---\r\n"@ + meta + "\n---"@ + body,
        forall|i: int| !occurs_at(meta, "\n---"@, i),
{
    reveal_strlit("---\n");
    reveal_strlit("---\r\n");
    reveal_strlit("\n---");
    let closer = "\n---"@;
    let rest = after_opening(raw).unwrap();
    let close = find_from(rest, closer, 0).unwrap();
    find_from_is_first(rest, closer, 0);
    assert(rest =~= meta + closer + body) by {
        assert(rest.subrange(close, close + 4) == closer);
        assert forall|i: int| 0 <= i < 4 implies rest[close + i] == closer[i] by {
            assert(rest.subrange(close, close + 4)[i] == rest[close + i]);
        }
    }
    if occurs_at(raw, "---\n"@, 0) {
        assert(raw =~= raw.subrange(0, 4) + rest);
        assert(raw =~= "---\n"@ + meta + closer + body);
    } else {
        assert(raw =~= raw.subrange(0, 5) + rest);
        assert(raw =~= "---\r\n"@ + meta + closer + body);
    }
    assert forall|i: int| !occurs_at(meta, closer, i) by {
        if occurs_at(meta, closer, i) {
            assert(rest.subrange(i, i + 4) =~= meta.subrange(i, i + 4));
            assert(occurs_at(rest, closer, i));
        }
    }
}

/// A document put together from frontmatter that holds no closing delimiter, and a body, is split
/// into these two.
pub proof fn frontmatter_of_composed_document(meta: Seq<char>, body: Seq<char>)
    requires
        forall|i: int| !occurs_at(meta, "\n---"@, i),
    ensures
        frontmatter("---\n"@ + meta + "\n---"@ + body) == Some((meta, body)),
        frontmatter("---\r\n"@ + meta + "\n---"@ + body) == Some((meta, body)),
{
    reveal_strlit("---\n");
    reveal_strlit("---\r\n");
    reveal_strlit("\n---");
    let closer = "\n---"@;
    let rest = meta + closer + body;
    let lf = "---\n"@ + meta + closer + body;
    let crlf = "---\r\n"@ + meta + closer + body;
    assert(lf.subrange(0, 4) =~= "---\n"@);
    assert(lf.skip(4) =~= rest);
    assert(crlf.subrange(0, 5) =~= "---\r\n"@);
    assert(crlf.subrange(0, 4)[3] != "---\n"@[3]);
    assert(crlf.skip(5) =~= rest);
    assert(occurs_at(rest, closer, meta.len() as int)) by {
        assert(rest.subrange(meta.len() as int, meta.len() as int + 4) =~= closer);
    }
    assert forall|i: int| 0 <= i < meta.len() implies !occurs_at(rest, closer, i) by {
        if occurs_at(rest, closer, i) {
            let cut = rest.subrange(i, i + 4);
            if i + 4 <= meta.len() {
                assert(meta.subrange(i, i + 4) =~= cut);
                assert(occurs_at(meta, closer, i));
            } else {
                assert(cut[meta.len() - i] == closer[0]);
                assert(cut[meta.len() - i] == closer[meta.len() - i]);
            }
        }
    }
    find_from_is_first(rest, closer, 0);
    let k = find_from(rest, closer, 0).unwrap();
    assert(k == meta.len());
    assert(rest.take(k) =~= meta);
    assert(rest.skip(k + 4) =~= body);
}

} // verus!
