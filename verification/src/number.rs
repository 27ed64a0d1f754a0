//! Decimal numbers in text.

use vstd::prelude::*;

verus! {

/// `b` is an ASCII digit.
pub open spec fn is_decimal_digit(b: u8) -> bool {
    0x30 <= b <= 0x39
}

/// Every byte of `s` is an ASCII digit.
pub open spec fn all_digits(s: Seq<u8>) -> bool {
    forall|i: int| 0 <= i < s.len() ==> is_decimal_digit(#[trigger] s[i])
}

/// The number that the digits `s` write in base ten.
pub open spec fn digits_value(s: Seq<u8>) -> nat
    decreases s.len(),
{
    if s.len() == 0 {
        0
    } else {
        (digits_value(s.drop_last()) * 10 + (s.last() - 0x30)) as nat
    }
}

/// The number that `s` writes, if `s` is one or more digits whose value
/// fits into 64 bits.  A sign is no digit.
pub open spec fn parsed_u64(s: Seq<u8>) -> Option<u64> {
    if s.len() > 0 && all_digits(s) && digits_value(s) <= u64::MAX {
        Some(digits_value(s) as u64)
    } else {
        None
    }
}

/// The decimal digits of `n`, without leading zeros.
pub open spec fn decimal(n: nat) -> Seq<u8>
    decreases n,
{
    if n < 10 {
        seq![(0x30 + n) as u8]
    } else {
        decimal(n / 10).push((0x30 + n % 10) as u8)
    }
}

/// A number is at least the number that the front of its digits writes.
proof fn lemma_digits_value_grows(s: Seq<u8>, k: int)
    requires
        0 <= k <= s.len(),
        all_digits(s),
    ensures
        digits_value(s.subrange(0, k)) <= digits_value(s),
    decreases s.len() - k,
{
    if k < s.len() {
        lemma_digits_value_grows(s, k + 1);
        let longer = s.subrange(0, k + 1);
        assert(longer.drop_last() =~= s.subrange(0, k));
        assert(is_decimal_digit(s[k]));
        assert(longer.last() == s[k]);
    } else {
        assert(s.subrange(0, k) =~= s);
    }
}

/// Parses an unsigned decimal number: one or more digits and nothing else;
/// the value must fit into 64 bits.
pub fn parse_u64(s: &[u8]) -> (r: Option<u64>)
    ensures
        r == parsed_u64(s@),
{
    let len: usize = s.len();
    if len == 0 {
        return None;
    }
    let mut acc: u64 = 0;
    let mut i: usize = 0;
    assert(s@.subrange(0, 0) =~= Seq::<u8>::empty());
    while i < len
        invariant
            len == s@.len(),
            i <= len,
            all_digits(s@.subrange(0, i as int)),
            acc == digits_value(s@.subrange(0, i as int)),
        decreases len - i,
    {
        let b: u8 = s[i];
        let ghost front = s@.subrange(0, i as int);
        let ghost longer = s@.subrange(0, i + 1);
        proof {
            assert(longer.drop_last() =~= front);
            assert(longer.last() == b);
        }
        if !(0x30 <= b && b <= 0x39) {
            assert(!is_decimal_digit(s@[i as int]));
            return None;
        }
        proof {
            assert forall|k: int| 0 <= k < longer.len() implies is_decimal_digit(
                #[trigger] longer[k],
            ) by {
                if k < front.len() {
                    assert(longer[k] == front[k]);
                }
            }
        }
        let digit: u64 = (b - 0x30) as u64;
        if acc > (u64::MAX - digit) / 10 {
            proof {
                assert(digits_value(longer) == acc * 10 + digit);
                assert(digits_value(longer) > u64::MAX);
                if all_digits(s@) {
                    lemma_digits_value_grows(s@, i + 1);
                }
            }
            return None;
        }
        acc = acc * 10 + digit;
        i = i + 1;
    }
    assert(s@.subrange(0, len as int) =~= s@);
    Some(acc)
}

/// `itoa::write` into 20 bytes of memory: the decimal digits of `n`, and
/// how many they are.  No 64-bit number has more than 20 digits.
#[verifier::external_body]
pub(crate) fn decimal_digits(n: u64) -> (r: ([u8; 20], usize))
    ensures
        r.1 <= 20,
        r.0@.subrange(0, r.1 as int) == decimal(n as nat),
{
    let mut bytes = [0u8; 20];
    let len = itoa::write(&mut bytes[..], n).unwrap();
    (bytes, len)
}

/// The decimal digits of `n` as characters.
pub open spec fn decimal_text(n: nat) -> Seq<char> {
    decimal(n).map_values(|b: u8| b as char)
}

/// `itoa::fmt` into an empty string: the decimal digits of `n`.
#[verifier::external_body]
pub(crate) fn decimal_string(n: u64) -> (r: String)
    ensures
        r@ == decimal_text(n as nat),
{
    let mut text = String::new();
    itoa::fmt(&mut text, n).unwrap();
    text
}

/// The decimal digits of a number are digits, write that number, and start
/// with a zero only where the number is zero, which is written as one zero.
pub proof fn lemma_decimal_is_canonical(n: nat)
    ensures
        decimal(n).len() > 0,
        all_digits(decimal(n)),
        digits_value(decimal(n)) == n,
        n == 0 <==> decimal(n)[0] == 0x30,
        n == 0 ==> decimal(n) == seq![0x30u8],
        n <= u64::MAX ==> parsed_u64(decimal(n)) == Some(n as u64),
    decreases n,
{
    if n >= 10 {
        lemma_decimal_is_canonical(n / 10);
        let front = decimal(n / 10);
        let all = decimal(n);
        assert(all.drop_last() =~= front);
        assert(all.last() == (0x30 + n % 10) as u8);
        assert(all[0] == front[0]);
        assert forall|i: int| 0 <= i < all.len() implies is_decimal_digit(#[trigger] all[i]) by {
            if i < front.len() {
                assert(all[i] == front[i]);
            }
        }
    } else {
        let all = decimal(n);
        assert(all.drop_last() =~= Seq::<u8>::empty());
        assert(digits_value(all.drop_last()) == 0);
    }
}

} // verus!
