//! Comparing and converting bytes of text.

use vstd::prelude::*;
use vstd::string::StringSliceAdditionalSpecFns;
use vstd::utf8::{
    is_char_boundary, is_char_boundary_iff_not_is_continuation_byte,
    is_char_boundary_start_end_of_seq, is_continuation_byte, length_of_first_scalar,
    pop_first_scalar, valid_utf8, valid_utf8_split,
};

verus! {

/// `b` with an ASCII upper-case letter made lower case.
pub open spec fn lower(b: u8) -> u8 {
    if 0x41 <= b <= 0x5a {
        (b + 0x20) as u8
    } else {
        b
    }
}

/// `a` and `b` are equal but for the case of their ASCII letters.
pub open spec fn eq_ignore_case(a: Seq<u8>, b: Seq<u8>) -> bool {
    &&& a.len() == b.len()
    &&& forall|i: int| 0 <= i < a.len() ==> lower(a[i]) == lower(b[i])
}

/// Makes an ASCII upper-case letter lower case.
pub fn to_lower(b: u8) -> (r: u8)
    ensures
        r == lower(b),
{
    if 0x41 <= b && b <= 0x5a {
        b + 0x20
    } else {
        b
    }
}

/// Whether two byte strings are equal but for the case of their ASCII
/// letters.
pub fn eq_ignore_ascii_case(a: &[u8], b: &[u8]) -> (r: bool)
    ensures
        r == eq_ignore_case(a@, b@),
{
    if a.len() != b.len() {
        return false;
    }
    let n: usize = a.len();
    let mut i: usize = 0;
    while i < n
        invariant
            n == a@.len(),
            n == b@.len(),
            i <= n,
            forall|k: int| 0 <= k < i ==> lower(a@[k]) == lower(b@[k]),
        decreases n - i,
    {
        if to_lower(a[i]) != to_lower(b[i]) {
            return false;
        }
        i = i + 1;
    }
    true
}

/// Whether two byte strings are equal.
pub fn bytes_eq(a: &[u8], b: &[u8]) -> (r: bool)
    ensures
        r == (a@ == b@),
{
    if a.len() != b.len() {
        return false;
    }
    let n: usize = a.len();
    let mut i: usize = 0;
    while i < n
        invariant
            n == a@.len(),
            n == b@.len(),
            i <= n,
            forall|k: int| 0 <= k < i ==> a@[k] == b@[k],
        decreases n - i,
    {
        if a[i] != b[i] {
            return false;
        }
        i = i + 1;
    }
    assert(a@ =~= b@);
    true
}

/// `std::str::from_utf8`: a byte slice is a string slice if and only if
/// it is valid UTF-8, and the string slice then has the same bytes.
#[verifier::external_body]
pub(crate) fn str_from_utf8(bytes: &[u8]) -> (r: Option<&str>)
    ensures
        r is Some <==> valid_utf8(bytes@),
        r is Some ==> r.unwrap().spec_bytes() == bytes@,
{
    std::str::from_utf8(bytes).ok()
}

/// In valid UTF-8 a character starts at every byte that is no continuation
/// byte, and one ends at the end.
pub proof fn lemma_char_boundary(bytes: Seq<u8>, i: int)
    requires
        valid_utf8(bytes),
        0 <= i <= bytes.len(),
        i == bytes.len() || !is_continuation_byte(bytes[i]),
    ensures
        is_char_boundary(bytes, i),
{
    if i == bytes.len() {
        is_char_boundary_start_end_of_seq(bytes);
    } else {
        is_char_boundary_iff_not_is_continuation_byte(bytes, i);
    }
}

/// A piece of valid UTF-8 that starts and ends where a byte is no
/// continuation byte, or at the end, is valid UTF-8.
pub proof fn lemma_valid_utf8_piece(bytes: Seq<u8>, from: int, to: int)
    requires
        valid_utf8(bytes),
        0 <= from <= to <= bytes.len(),
        from == bytes.len() || !is_continuation_byte(bytes[from]),
        to == bytes.len() || !is_continuation_byte(bytes[to]),
    ensures
        valid_utf8(bytes.subrange(from, to)),
{
    lemma_char_boundary(bytes, to);
    valid_utf8_split(bytes, to);
    let front = bytes.subrange(0, to);
    if from < to {
        assert(front[from] == bytes[from]);
    }
    lemma_char_boundary(front, from);
    valid_utf8_split(front, from);
    assert(front.subrange(from, front.len() as int) =~= bytes.subrange(from, to));
}

/// The number of bytes of a UTF-8 character that starts with the byte `b`.
pub open spec fn char_len(b: u8) -> int {
    if b <= 0x7f {
        1
    } else if b <= 0xdf {
        2
    } else if b <= 0xef {
        3
    } else {
        4
    }
}

/// In valid UTF-8 the byte behind a whole character is no continuation
/// byte.
pub proof fn lemma_after_char(bytes: Seq<u8>, i: int)
    requires
        valid_utf8(bytes),
        0 <= i < bytes.len(),
        !is_continuation_byte(bytes[i]),
    ensures
        i + char_len(bytes[i]) <= bytes.len(),
        i + char_len(bytes[i]) == bytes.len() || !is_continuation_byte(
            bytes[i + char_len(bytes[i])],
        ),
{
    lemma_char_boundary(bytes, i);
    valid_utf8_split(bytes, i);
    let tail = bytes.subrange(i, bytes.len() as int);
    assert(tail[0] == bytes[i]);
    assert(valid_utf8(tail));
    let n = length_of_first_scalar(tail);
    assert(n == char_len(bytes[i]));
    let rest = pop_first_scalar(tail);
    assert(valid_utf8(rest));
    assert(rest =~= bytes.subrange(i + n, bytes.len() as int));
    if rest.len() > 0 {
        is_char_boundary_iff_not_is_continuation_byte(rest, 0);
        assert(rest[0] == bytes[i + n]);
    }
}

/// `c` with an ASCII upper-case letter made lower case.
pub open spec fn lower_char(c: char) -> char {
    if 'A' <= c <= 'Z' {
        ((c as u32) + 32) as char
    } else {
        c
    }
}

/// `s` with its ASCII upper-case letters made lower case.
pub open spec fn lowered(s: Seq<char>) -> Seq<char> {
    s.map_values(|c: char| lower_char(c))
}

/// `str::to_ascii_lowercase`: a copy in which the ASCII upper-case letters
/// are lower case and everything else is as it was.
#[verifier::external_body]
pub(crate) fn to_ascii_lowercase(s: &str) -> (r: String)
    ensures
        r@ == lowered(s@),
{
    s.to_ascii_lowercase()
}

} // verus!
