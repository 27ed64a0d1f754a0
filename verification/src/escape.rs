//! Showing bytes as printable ASCII.

use vstd::prelude::*;
use vstd::string::StringExecFns;

verus! {

/// The hexadecimal digit, in lower case, for a number below 16.
pub open spec fn hex_digit(n: u8) -> char {
    if n < 10 {
        (0x30 + n) as char
    } else {
        (0x61 + n - 10) as char
    }
}

/// The printable text that stands for the byte `b`: a backslash and a
/// letter for tab, carriage return and line feed; a backslash before a quote,
/// a double quote and a backslash; the character itself for the other
/// printable ASCII characters and the space; and `\x` with two hexadecimal
/// digits for every other byte.
pub open spec fn escaped_byte(b: u8) -> Seq<char> {
    if b == 0x09 {
        seq!['\\', 't']
    } else if b == 0x0d {
        seq!['\\', 'r']
    } else if b == 0x0a {
        seq!['\\', 'n']
    } else if b == 0x27 {
        seq!['\\', '\'']
    } else if b == 0x22 {
        seq!['\\', '"']
    } else if b == 0x5c {
        seq!['\\', '\\']
    } else if 0x20 <= b <= 0x7e {
        seq![b as char]
    } else {
        seq!['\\', 'x', hex_digit(b / 16), hex_digit(b % 16)]
    }
}

/// The printable text that stands for the bytes `input`.
pub open spec fn escaped(input: Seq<u8>) -> Seq<char>
    decreases input.len(),
{
    if input.len() == 0 {
        Seq::empty()
    } else {
        escaped(input.drop_last()) + escaped_byte(input.last())
    }
}

/// `std::ascii::escape_default`, as a string: the escape of one byte.
#[verifier::external_body]
fn escape_default(b: u8) -> (r: String)
    ensures
        r@ == escaped_byte(b),
{
    std::ascii::escape_default(b).to_string()
}

/// Shows `input` as printable ASCII.
pub fn escape_ascii(input: &[u8]) -> (r: String)
    ensures
        r@ == escaped(input@),
{
    let n: usize = input.len();
    let mut result = String::new();
    let mut i: usize = 0;
    assert(input@.subrange(0, 0) =~= Seq::<u8>::empty());
    while i < n
        invariant
            n == input@.len(),
            i <= n,
            result@ == escaped(input@.subrange(0, i as int)),
        decreases n - i,
    {
        let one = escape_default(input[i]);
        result.append(one.as_str());
        proof {
            let longer = input@.subrange(0, i + 1);
            assert(longer.drop_last() =~= input@.subrange(0, i as int));
            assert(longer.last() == input@[i as int]);
        }
        i = i + 1;
    }
    assert(input@.subrange(0, n as int) =~= input@);
    result
}

/// `c` is a printable ASCII character or the space.
pub open spec fn is_printable(c: char) -> bool {
    ' ' <= c <= '~'
}

/// What `escape_ascii` returns is printable ASCII throughout.
pub proof fn lemma_escaped_is_printable(input: Seq<u8>)
    ensures
        forall|i: int| 0 <= i < escaped(input).len() ==> is_printable(#[trigger] escaped(input)[i]),
    decreases input.len(),
{
    if input.len() > 0 {
        lemma_escaped_is_printable(input.drop_last());
        let front = escaped(input.drop_last());
        let b = input.last();
        let one = escaped_byte(b);
        assert forall|k: int| 0 <= k < one.len() implies is_printable(#[trigger] one[k]) by {
            assert(is_printable(hex_digit(b / 16)));
            assert(is_printable(hex_digit(b % 16)));
        }
        assert forall|i: int| 0 <= i < escaped(input).len() implies is_printable(
            #[trigger] escaped(input)[i],
        ) by {
            if i < front.len() {
                assert(escaped(input)[i] == front[i]);
            } else {
                assert(escaped(input)[i] == one[i - front.len()]);
            }
        }
    }
}

} // verus!
