//! Percent-decoding.

use vstd::prelude::*;

verus! {

/// The value of the hexadecimal digit `b`, if it is one.
pub open spec fn hex_value(b: u8) -> Option<u8> {
    if 0x30 <= b <= 0x39 {
        Some((b - 0x30) as u8)
    } else if 0x41 <= b <= 0x46 {
        Some((b - 0x41 + 10) as u8)
    } else if 0x61 <= b <= 0x66 {
        Some((b - 0x61 + 10) as u8)
    } else {
        None
    }
}

/// Whether `s` starts with a percent sign and two hexadecimal digits.
pub open spec fn starts_with_escape(s: Seq<u8>) -> bool {
    s.len() >= 3 && s[0] == 0x25 && hex_value(s[1]) is Some && hex_value(s[2]) is Some
}

/// `s` with every percent sign that two hexadecimal digits follow replaced,
/// together with them, by the byte that the digits write.
pub open spec fn percent_decoded(s: Seq<u8>) -> Seq<u8>
    decreases s.len(),
{
    if s.len() == 0 {
        s
    } else if starts_with_escape(s) {
        seq![(hex_value(s[1]).unwrap() * 16 + hex_value(s[2]).unwrap()) as u8] + percent_decoded(
            s.subrange(3, s.len() as int),
        )
    } else {
        seq![s[0]] + percent_decoded(s.subrange(1, s.len() as int))
    }
}

/// `percent_encoding::percent_decode`, collected: every `%` followed by two
/// hexadecimal digits is decoded, every other byte is kept.
#[verifier::external_body]
pub(crate) fn percent_decode(input: &[u8]) -> (r: Vec<u8>)
    ensures
        r@ == percent_decoded(input@),
{
    percent_encoding::percent_decode(input).collect()
}

/// Decoding makes nothing longer.
pub proof fn lemma_percent_decoded_len(s: Seq<u8>)
    ensures
        percent_decoded(s).len() <= s.len(),
    decreases s.len(),
{
    if s.len() == 0 {
    } else if starts_with_escape(s) {
        lemma_percent_decoded_len(s.subrange(3, s.len() as int));
    } else {
        lemma_percent_decoded_len(s.subrange(1, s.len() as int));
    }
}

} // verus!
