//! Unicode whitespace in UTF-8 text.

use vstd::prelude::*;
use vstd::utf8::{is_continuation_byte, valid_utf8};
use crate::text::{char_len, lemma_after_char};

verus! {

/// `b` is an ASCII whitespace character: tab, line feed, vertical tab, form
/// feed, carriage return or space.
pub open spec fn is_space_1(b: u8) -> bool {
    0x09 <= b <= 0x0d || b == 0x20
}

/// `a b` encodes U+0085 or U+00A0.
pub open spec fn is_space_2(a: u8, b: u8) -> bool {
    a == 0xc2 && (b == 0x85 || b == 0xa0)
}

/// `a b c` encodes U+1680, one of U+2000 to U+200A, U+2028, U+2029, U+202F,
/// U+205F or U+3000.
pub open spec fn is_space_3(a: u8, b: u8, c: u8) -> bool {
    ||| a == 0xe1 && b == 0x9a && c == 0x80
    ||| a == 0xe2 && b == 0x80 && (0x80 <= c <= 0x8a || c == 0xa8 || c == 0xa9 || c == 0xaf)
    ||| a == 0xe2 && b == 0x81 && c == 0x9f
    ||| a == 0xe3 && b == 0x80 && c == 0x80
}

/// The number of bytes of the whitespace character that starts at `i`, or 0
/// if none starts there.
pub open spec fn space_at(s: Seq<u8>, i: int) -> int {
    if 0 <= i < s.len() && is_space_1(s[i]) {
        1
    } else if 0 <= i && i + 1 < s.len() && is_space_2(s[i], s[i + 1]) {
        2
    } else if 0 <= i && i + 2 < s.len() && is_space_3(s[i], s[i + 1], s[i + 2]) {
        3
    } else {
        0
    }
}

/// The number of bytes of the whitespace character that ends before `i`, or
/// 0 if none ends there.
pub open spec fn space_before(s: Seq<u8>, i: int) -> int {
    if 1 <= i <= s.len() && is_space_1(s[i - 1]) {
        1
    } else if 2 <= i <= s.len() && is_space_2(s[i - 2], s[i - 1]) {
        2
    } else if 3 <= i <= s.len() && is_space_3(s[i - 3], s[i - 2], s[i - 1]) {
        3
    } else {
        0
    }
}

/// Where the text starts that follows the whitespace from `from` on.
pub open spec fn trim_start(s: Seq<u8>, from: int) -> int
    decreases s.len() - from,
{
    if space_at(s, from) > 0 {
        trim_start(s, from + space_at(s, from))
    } else {
        from
    }
}

/// Where the whitespace starts that ends at `to`, looking back no further
/// than `from`.
pub open spec fn trim_end(s: Seq<u8>, from: int, to: int) -> int
    decreases to,
{
    if space_before(s, to) > 0 && from <= to - space_before(s, to) {
        trim_end(s, from, to - space_before(s, to))
    } else {
        to
    }
}

/// The number of bytes of the whitespace character that starts at `i`.
fn space_len_at(s: &[u8], i: usize) -> (r: usize)
    requires
        i <= s@.len(),
    ensures
        r == space_at(s@, i as int),
        i + r <= s@.len(),
{
    let n: usize = s.len();
    if i < n && ((0x09 <= s[i] && s[i] <= 0x0d) || s[i] == 0x20) {
        return 1;
    }
    if n - i >= 2 && s[i] == 0xc2 && (s[i + 1] == 0x85 || s[i + 1] == 0xa0) {
        return 2;
    }
    if n - i >= 3 && three_is_space(s[i], s[i + 1], s[i + 2]) {
        return 3;
    }
    0
}

/// The number of bytes of the whitespace character that ends before `i`.
fn space_len_before(s: &[u8], i: usize) -> (r: usize)
    requires
        i <= s@.len(),
    ensures
        r == space_before(s@, i as int),
        r <= i,
{
    if i >= 1 && ((0x09 <= s[i - 1] && s[i - 1] <= 0x0d) || s[i - 1] == 0x20) {
        return 1;
    }
    if i >= 2 && s[i - 2] == 0xc2 && (s[i - 1] == 0x85 || s[i - 1] == 0xa0) {
        return 2;
    }
    if i >= 3 && three_is_space(s[i - 3], s[i - 2], s[i - 1]) {
        return 3;
    }
    0
}

/// Whether three bytes encode a whitespace character.
fn three_is_space(a: u8, b: u8, c: u8) -> (r: bool)
    ensures
        r == is_space_3(a, b, c),
{
    (a == 0xe1 && b == 0x9a && c == 0x80) || (a == 0xe2 && b == 0x80 && ((0x80 <= c && c <= 0x8a)
        || c == 0xa8 || c == 0xa9 || c == 0xaf)) || (a == 0xe2 && b == 0x81 && c == 0x9f) || (a
        == 0xe3 && b == 0x80 && c == 0x80)
}

/// Skips the whitespace that starts at `from`.
pub fn skip_spaces(s: &[u8], from: usize) -> (r: usize)
    requires
        from <= s@.len(),
    ensures
        r == trim_start(s@, from as int),
        from <= r <= s@.len(),
{
    let len: usize = s.len();
    let mut i: usize = from;
    loop
        invariant
            len == s@.len(),
            from <= i <= s@.len(),
            trim_start(s@, from as int) == trim_start(s@, i as int),
        ensures
            from <= i <= s@.len(),
            i == trim_start(s@, from as int),
        decreases s@.len() - i,
    {
        let n: usize = space_len_at(s, i);
        if n == 0 {
            break ;
        }
        i = i + n;
    }
    i
}

/// Skips back over the whitespace that ends at `to`, no further than `from`.
pub fn skip_spaces_back(s: &[u8], from: usize, to: usize) -> (r: usize)
    requires
        from <= to <= s@.len(),
    ensures
        r == trim_end(s@, from as int, to as int),
        from <= r <= to,
{
    let mut i: usize = to;
    loop
        invariant
            from <= i <= to,
            to <= s@.len(),
            trim_end(s@, from as int, to as int) == trim_end(s@, from as int, i as int),
        ensures
            from <= i <= to,
            i == trim_end(s@, from as int, to as int),
        decreases i,
    {
        let n: usize = space_len_before(s, i);
        if n == 0 || i - n < from {
            break ;
        }
        i = i - n;
    }
    i
}

/// In valid UTF-8, text that follows whitespace starts a character if the
/// whitespace does.
pub proof fn lemma_trim_start_boundary(s: Seq<u8>, from: int)
    requires
        valid_utf8(s),
        0 <= from <= s.len(),
        from == s.len() || !is_continuation_byte(s[from]),
    ensures
        from <= trim_start(s, from) <= s.len(),
        trim_start(s, from) == s.len() || !is_continuation_byte(s[trim_start(s, from)]),
    decreases s.len() - from,
{
    let n = space_at(s, from);
    if n > 0 {
        assert(n == char_len(s[from]));
        lemma_after_char(s, from);
        lemma_trim_start_boundary(s, from + n);
    }
}

/// Whitespace that ends where a character starts, or at the end, starts a
/// character itself.
pub proof fn lemma_trim_end_boundary(s: Seq<u8>, from: int, to: int)
    requires
        0 <= from <= to <= s.len(),
        to == s.len() || !is_continuation_byte(s[to]),
    ensures
        from <= trim_end(s, from, to) <= to,
        trim_end(s, from, to) == s.len() || !is_continuation_byte(s[trim_end(s, from, to)]),
    decreases to,
{
    let n = space_before(s, to);
    if n > 0 && from <= to - n {
        lemma_trim_end_boundary(s, from, to - n);
    }
}

} // verus!
