//! Headers: those sent with a response, and those that a request is searched
//! for.

use vstd::prelude::*;
use vstd::string::{StringExecFns, StringSliceAdditionalSpecFns};
use vstd::utf8::{decode_utf8, encode_utf8, encode_utf8_decode_utf8, valid_utf8};
use crate::bounded::{pushed_partial, HeaderValue, HEADER_VALUE_MAX};
use crate::number::{decimal_string, decimal_text, parse_u64, parsed_u64};
use crate::search::{find_first, first_match, lemma_first_match_props};
use crate::status::{HttpCallerError, HttpError};
use crate::text::{
    eq_ignore_ascii_case, eq_ignore_case, lemma_after_char, lemma_valid_utf8_piece, lowered,
    str_from_utf8, to_ascii_lowercase,
};
use crate::whitespace::{
    lemma_trim_end_boundary, lemma_trim_start_boundary, skip_spaces, skip_spaces_back, trim_end,
    trim_start,
};

verus! {

/// A single colon.
pub open spec fn colon() -> Seq<u8> {
    seq![0x3au8]
}

/// The name and the value of a header line, as bytes.  The line must be
/// valid UTF-8.  The name is what stands before the first colon and must not
/// be empty.  The value is what stands behind that colon, without the
/// whitespace around it, and must not hold a line feed.
pub open spec fn header_line_parts(line: Seq<u8>) -> Option<(Seq<u8>, Seq<u8>)> {
    match first_match(line, colon()) {
        None => None,
        Some(c) => {
            let start = trim_start(line, c + 1);
            let end = trim_end(line, start, line.len() as int);
            if valid_utf8(line) && c > 0 && !line.subrange(start, end).contains(0x0au8) {
                Some((line.subrange(0, c), line.subrange(start, end)))
            } else {
                None
            }
        },
    }
}

/// Whether `s` holds the byte `b`.
fn contains_byte(s: &[u8], b: u8) -> (r: bool)
    ensures
        r == s@.contains(b),
{
    let n: usize = s.len();
    let mut i: usize = 0;
    while i < n
        invariant
            n == s@.len(),
            i <= n,
            forall|k: int| 0 <= k < i ==> s@[k] != b,
        decreases n - i,
    {
        if s[i] == b {
            return true;
        }
        i = i + 1;
    }
    false
}

/// Parses a header line into its name and its value.  Fails with
/// `HeaderLineInvalid` where the line is not `NAME ":" VALUE`, with optional
/// whitespace around the value.
pub fn parse_header_line<'a>(line_bytes: &'a [u8]) -> (r: Result<(&'a str, &'a str), HttpError>)
    ensures
        match header_line_parts(line_bytes@) {
            Some((name, value)) => r matches Ok((n, v)) && n.spec_bytes() == name
                && v.spec_bytes() == value,
            None => r == Err::<(&'a str, &'a str), HttpError>(
                HttpError::ParseError(HttpCallerError::HeaderLineInvalid),
            ),
        },
{
    if str_from_utf8(line_bytes).is_none() {
        return Err(HttpError::ParseError(HttpCallerError::HeaderLineInvalid));
    }
    let co: [u8; 1] = [0x3au8];
    assert(co@ =~= colon());
    let len: usize = line_bytes.len();
    let c: usize = match find_first(line_bytes, co.as_slice()) {
        Some(c) => c,
        None => {
            return Err(HttpError::ParseError(HttpCallerError::HeaderLineInvalid));
        },
    };
    proof {
        lemma_first_match_props(line_bytes@, colon());
        assert(line_bytes@.subrange(c as int, c + 1)[0] == 0x3au8);
    }
    let start: usize = skip_spaces(line_bytes, c + 1);
    let end: usize = skip_spaces_back(line_bytes, start, len);
    let name_bytes = vstd::slice::slice_subrange(line_bytes, 0, c);
    let value_bytes = vstd::slice::slice_subrange(line_bytes, start, end);
    if c == 0 || contains_byte(value_bytes, 0x0a) {
        return Err(HttpError::ParseError(HttpCallerError::HeaderLineInvalid));
    }
    proof {
        lemma_after_char(line_bytes@, c as int);
        lemma_trim_start_boundary(line_bytes@, c + 1);
        lemma_trim_end_boundary(line_bytes@, start as int, len as int);
        lemma_valid_utf8_piece(line_bytes@, 0, c as int);
        lemma_valid_utf8_piece(line_bytes@, start as int, end as int);
    }
    match (str_from_utf8(name_bytes), str_from_utf8(value_bytes)) {
        (Some(name), Some(value)) => Ok((name, value)),
        _ => Err(HttpError::ParseError(HttpCallerError::HeaderLineInvalid)),
    }
}

/// A header of a response.
pub struct Header<'a> {
    pub name: &'a str,
    pub value: &'a str,
}

impl<'a> Header<'a> {
    /// Makes a header.
    pub fn new<'b>(name: &'b str, value: &'b str) -> (r: Header<'b>)
        ensures
            r.name == name,
            r.value == value,
    {
        Header { name, value }
    }
}

/// `name` is, in any case of its letters, one of `transfer-encoding`,
/// `content-length`, `content-type` and `content-encoding`.
pub open spec fn is_non_pii_name(name: Seq<u8>) -> bool {
    ||| eq_ignore_case(name, "transfer-encoding".spec_bytes())
    ||| eq_ignore_case(name, "content-length".spec_bytes())
    ||| eq_ignore_case(name, "content-type".spec_bytes())
    ||| eq_ignore_case(name, "content-encoding".spec_bytes())
}

/// Returns true if the header name matches headers that cannot carry
/// personal data: `transfer-encoding`, `content-length`, `content-type` and
/// `content-encoding`.
pub fn is_non_pii_header(name: &str) -> (r: bool)
    ensures
        r == is_non_pii_name(name.spec_bytes()),
{
    let n = name.as_bytes();
    eq_ignore_ascii_case(n, "transfer-encoding".as_bytes()) || eq_ignore_ascii_case(
        n,
        "content-length".as_bytes(),
    ) || eq_ignore_ascii_case(n, "content-type".as_bytes()) || eq_ignore_ascii_case(
        n,
        "content-encoding".as_bytes(),
    )
}

/// What a `HeaderReceiver` is: the bytes of its name and of its value.
pub struct HeaderReceiverView {
    pub name: Seq<u8>,
    pub value: Seq<u8>,
}

/// Takes up the value of the request header that has its name.
pub struct HeaderReceiver<'a> {
    pub name: &'a str,
    pub value: HeaderValue,
}

impl<'a> View for HeaderReceiver<'a> {
    type V = HeaderReceiverView;

    open spec fn view(&self) -> HeaderReceiverView {
        HeaderReceiverView { name: self.name.spec_bytes(), value: self.value@ }
    }
}

/// Whether a `transfer-encoding` header with this value announces a chunked
/// body: no if it is empty, yes if it is `chunked` in any case; any other
/// value is an error.
pub open spec fn chunked_of(value: Seq<u8>) -> Result<bool, HttpCallerError> {
    if value.len() == 0 {
        Ok(false)
    } else if eq_ignore_case(value, "chunked".spec_bytes()) {
        Ok(true)
    } else {
        Err(HttpCallerError::TransferEncodingHeaderInvalid)
    }
}

/// Whether an `expect` header with this value asks for `100 Continue`: no if
/// it is empty, yes if it is `100-continue` in any case; any other value is an
/// error.
pub open spec fn expects_continue_of(value: Seq<u8>) -> Result<bool, HttpCallerError> {
    if value.len() == 0 {
        Ok(false)
    } else if eq_ignore_case(value, "100-continue".spec_bytes()) {
        Ok(true)
    } else {
        Err(HttpCallerError::ExpectHeaderInvalid)
    }
}

/// The length that a `content-length` header with this value announces: 0
/// if it is empty, else the number that its digits write; anything but
/// digits, and a number that does not fit into 64 bits, is an error.
pub open spec fn content_length_of(value: Seq<u8>) -> Result<u64, HttpCallerError> {
    if value.len() == 0 {
        Ok(0)
    } else {
        match parsed_u64(value) {
            Some(n) => Ok(n),
            None => Err(HttpCallerError::ContentLengthHeaderInvalid),
        }
    }
}

impl<'a> HeaderReceiver<'a> {
    /// Makes a receiver for the header `name`, with an empty value.
    pub fn new(name: &'a str) -> (r: HeaderReceiver<'a>)
        ensures
            r@ == (HeaderReceiverView { name: name.spec_bytes(), value: Seq::<u8>::empty() }),
    {
        HeaderReceiver { name, value: HeaderValue::new() }
    }

    /// Tells whether the body is chunked.  For the receiver of
    /// `transfer-encoding` only.
    pub fn is_chunked(&self) -> (r: Result<bool, HttpError>)
        requires
            eq_ignore_case(self@.name, "transfer-encoding".spec_bytes()),
        ensures
            match chunked_of(self@.value) {
                Ok(b) => r == Ok::<bool, HttpError>(b),
                Err(e) => r == Err::<bool, HttpError>(HttpError::ParseError(e)),
            },
    {
        let value = self.value.as_str().as_bytes();
        if value.len() == 0 {
            return Ok(false);
        }
        if eq_ignore_ascii_case(value, "chunked".as_bytes()) {
            return Ok(true);
        }
        Err(HttpError::ParseError(HttpCallerError::TransferEncodingHeaderInvalid))
    }

    /// Tells whether the client waits for `100 Continue`.  For the receiver
    /// of `expect` only.
    pub fn is_100_continue(&self) -> (r: Result<bool, HttpError>)
        requires
            eq_ignore_case(self@.name, "expect".spec_bytes()),
        ensures
            match expects_continue_of(self@.value) {
                Ok(b) => r == Ok::<bool, HttpError>(b),
                Err(e) => r == Err::<bool, HttpError>(HttpError::ParseError(e)),
            },
    {
        let value = self.value.as_str().as_bytes();
        if value.len() == 0 {
            return Ok(false);
        }
        if eq_ignore_ascii_case(value, "100-continue".as_bytes()) {
            return Ok(true);
        }
        Err(HttpError::ParseError(HttpCallerError::ExpectHeaderInvalid))
    }

    /// Returns the length of the body.  For the receiver of
    /// `content-length` only.
    pub fn parse_content_length(&self) -> (r: Result<u64, HttpError>)
        requires
            eq_ignore_case(self@.name, "content-length".spec_bytes()),
        ensures
            match content_length_of(self@.value) {
                Ok(n) => r == Ok::<u64, HttpError>(n),
                Err(e) => r == Err::<u64, HttpError>(HttpError::ParseError(e)),
            },
    {
        let value = self.value.as_str().as_bytes();
        if value.len() == 0 {
            return Ok(0);
        }
        match parse_u64(value) {
            Some(n) => Ok(n),
            None => Err(HttpError::ParseError(HttpCallerError::ContentLengthHeaderInvalid)),
        }
    }
}

/// The views of some receivers.
pub open spec fn receiver_views(headers: Seq<HeaderReceiver>) -> Seq<HeaderReceiverView> {
    Seq::new(headers.len(), |i: int| headers[i]@)
}

/// What a header value becomes when it is stored: itself if it has at most
/// 256 bytes, else its longest front part that has at most 256 bytes and ends
/// between two characters.
pub open spec fn stored_value(value: Seq<u8>) -> Seq<u8> {
    pushed_partial(Seq::<u8>::empty(), value, HEADER_VALUE_MAX as int)
}

/// Whether `i` is the first of `headers` that takes the header `name`.
pub open spec fn receives_at(headers: Seq<HeaderReceiverView>, name: Seq<u8>, i: int) -> bool {
    &&& 0 <= i < headers.len()
    &&& eq_ignore_case(name, headers[i].name)
    &&& forall|j: int| 0 <= j < i ==> !eq_ignore_case(name, headers[j].name)
}

/// Whether one of `headers` takes the header `name`.
pub open spec fn receives(headers: Seq<HeaderReceiverView>, name: Seq<u8>) -> bool {
    exists|i: int| receives_at(headers, name, i)
}

/// The receivers after the header `name` with `value` was seen: the first
/// that has this name, in any case of its letters, holds the stored value; all
/// others are as before.
pub open spec fn saved(headers: Seq<HeaderReceiverView>, name: Seq<u8>, value: Seq<u8>) -> Seq<
    HeaderReceiverView,
> {
    if receives(headers, name) {
        let i = choose|i: int| receives_at(headers, name, i);
        headers.update(i, HeaderReceiverView { name: headers[i].name, value: stored_value(value) })
    } else {
        headers
    }
}

/// Whether storing the header `name` with `value` fails: it does if a
/// receiver takes it and the value has more than 256 bytes.
pub open spec fn save_fails(headers: Seq<HeaderReceiverView>, name: Seq<u8>, value: Seq<u8>)
    -> bool {
    receives(headers, name) && value.len() > HEADER_VALUE_MAX
}

/// Stores `value` in the first of `headers` whose name is `name` in any case
/// of its letters, if there is one.  A value of more than 256 bytes is cut and
/// gives `HeaderValueTooLong`.
pub fn save_header_value<'a>(name: &str, value: &str, headers: &mut [HeaderReceiver<'a>]) -> (r:
    Result<(), HttpError>)
    ensures
        receiver_views(final(headers)@) == saved(
            receiver_views(old(headers)@),
            name.spec_bytes(),
            value.spec_bytes(),
        ),
        final(headers)@.len() == old(headers)@.len(),
        forall|i: int|
            0 <= i < old(headers)@.len() ==> (#[trigger] final(headers)@[i]).name == old(
                headers,
            )@[i].name,
        if save_fails(receiver_views(old(headers)@), name.spec_bytes(), value.spec_bytes()) {
            r == Err::<(), HttpError>(HttpError::ParseError(HttpCallerError::HeaderValueTooLong))
        } else {
            r is Ok
        },
{
    let n: usize = headers.len();
    let ghost before = receiver_views(headers@);
    let mut i: usize = 0;
    while i < n
        invariant
            n == headers@.len(),
            i <= n,
            headers@ == old(headers)@,
            before == receiver_views(headers@),
            forall|j: int| 0 <= j < i ==> !eq_ignore_case(name.spec_bytes(), before[j].name),
        decreases n - i,
    {
        if eq_ignore_ascii_case(name.as_bytes(), headers[i].name.as_bytes()) {
            let stored = headers[i].value.set(value);
            proof {
                assert(receives_at(before, name.spec_bytes(), i as int));
                let k = choose|k: int| receives_at(before, name.spec_bytes(), k);
                assert(k == i) by {
                    if k < i {
                        assert(!eq_ignore_case(name.spec_bytes(), before[k].name));
                    } else if i < k {
                        assert(!eq_ignore_case(name.spec_bytes(), before[i as int].name));
                    }
                }
                assert(receiver_views(headers@) =~= saved(
                    before,
                    name.spec_bytes(),
                    value.spec_bytes(),
                ));
            }
            return match stored {
                Ok(()) => Ok(()),
                Err(_) => Err(HttpError::ParseError(HttpCallerError::HeaderValueTooLong)),
            };
        }
        i = i + 1;
    }
    proof {
        assert forall|k: int| !receives_at(before, name.spec_bytes(), k) by {
            if 0 <= k < n {
                assert(!eq_ignore_case(name.spec_bytes(), before[k].name));
            }
        }
    }
    Ok(())
}

/// How a header is shown to people: its name in lower case, a colon, and
/// its value.  Of a header that may carry personal data only the length of the
/// value is shown.
pub open spec fn display_text(name: Seq<char>, value: Seq<char>) -> Seq<char> {
    if is_non_pii_name(encode_utf8(name)) {
        lowered(name) + ":"@ + value + "}"@
    } else {
        lowered(name) + ":<"@ + decimal_text(encode_utf8(value).len()) + " bytes>}"@
    }
}

/// How a header is shown to those who debug: with its value in any case.
pub open spec fn debug_text(kind: Seq<char>, name: Seq<char>, value: Seq<char>) -> Seq<char> {
    kind + "{"@ + lowered(name) + ":"@ + value + "}"@
}

/// `texts` between square brackets, with a comma and a space between any
/// two of them.
pub open spec fn listed(texts: Seq<Seq<char>>) -> Seq<char> {
    "["@ + joined(texts) + "]"@
}

/// `texts` with a comma and a space between any two of them.
pub open spec fn joined(texts: Seq<Seq<char>>) -> Seq<char>
    decreases texts.len(),
{
    if texts.len() == 0 {
        Seq::empty()
    } else if texts.len() == 1 {
        texts[0]
    } else {
        joined(texts.drop_last()) + ", "@ + texts.last()
    }
}

/// Shows a header with the name `name` and the value `value`.
fn display(name: &str, value: &str) -> (r: String)
    ensures
        r@ == display_text(name@, value@),
{
    let mut text = to_ascii_lowercase(name);
    if is_non_pii_header(name) {
        text.append(":");
        text.append(value);
        text.append("}");
        assert(text@ =~= lowered(name@) + ":"@ + value@ + "}"@);
    } else {
        text.append(":<");
        let len = decimal_string(value.as_bytes().len() as u64);
        text.append(len.as_str());
        text.append(" bytes>}");
        assert(text@ =~= lowered(name@) + ":<"@ + decimal_text(encode_utf8(value@).len())
            + " bytes>}"@);
    }
    text
}

/// Shows a header with the name `name` and the value `value` to those who
/// debug.
fn debug(kind: &str, name: &str, value: &str) -> (r: String)
    ensures
        r@ == debug_text(kind@, name@, value@),
{
    let mut text = String::from_str(kind);
    text.append("{");
    let lower = to_ascii_lowercase(name);
    text.append(lower.as_str());
    text.append(":");
    text.append(value);
    text.append("}");
    text
}

impl<'a> Header<'a> {
    /// Shows the header.  Of a header that may carry personal data only the
    /// length of the value is shown.
    pub fn to_string(&self) -> (r: String)
        ensures
            r@ == display_text(self.name@, self.value@),
    {
        display(self.name, self.value)
    }

    /// Shows the header with its value.
    pub fn to_debug_string(&self) -> (r: String)
        ensures
            r@ == debug_text("Header"@, self.name@, self.value@),
    {
        debug("Header", self.name, self.value)
    }
}

impl<'a> HeaderReceiver<'a> {
    /// Shows the receiver.  Of a header that may carry personal data only the
    /// length of the value is shown.
    pub fn to_string(&self) -> (r: String)
        ensures
            r@ == display_text(self.name@, decode_utf8(self.value@)),
    {
        let value = self.value.as_str();
        proof {
            encode_utf8_decode_utf8(value@);
        }
        display(self.name, value)
    }

    /// Shows the receiver with its value.
    pub fn to_debug_string(&self) -> (r: String)
        ensures
            r@ == debug_text("HeaderReceiver"@, self.name@, decode_utf8(self.value@)),
    {
        let value = self.value.as_str();
        proof {
            encode_utf8_decode_utf8(value@);
        }
        debug("HeaderReceiver", self.name, value)
    }
}

/// The texts that show `headers`.
pub open spec fn header_texts(headers: Seq<Header>) -> Seq<Seq<char>> {
    Seq::new(headers.len(), |i: int| display_text(headers[i].name@, headers[i].value@))
}

/// Shows some headers: a list in square brackets.
pub fn headers_to_string(headers: &[Header]) -> (r: String)
    ensures
        r@ == listed(header_texts(headers@)),
{
    let n: usize = headers.len();
    let ghost texts = header_texts(headers@);
    let mut text = String::from_str("[");
    let mut i: usize = 0;
    while i < n
        invariant
            n == headers@.len(),
            i <= n,
            texts == header_texts(headers@),
            text@ == "["@ + joined(texts.subrange(0, i as int)),
        decreases n - i,
    {
        let ghost before = texts.subrange(0, i as int);
        let ghost longer = texts.subrange(0, i + 1);
        proof {
            assert(longer.drop_last() =~= before);
            assert(longer.last() == texts[i as int]);
        }
        if i > 0 {
            text.append(", ");
        }
        let one = headers[i].to_string();
        text.append(one.as_str());
        proof {
            if i == 0 {
                assert(joined(before) =~= Seq::<char>::empty());
                assert(longer[0] == texts[0]);
            }
            assert(text@ =~= "["@ + joined(longer));
        }
        i = i + 1;
    }
    assert(texts.subrange(0, n as int) =~= texts);
    text.append("]");
    text
}

/// The texts that show `receivers`.
pub open spec fn receiver_texts(receivers: Seq<HeaderReceiver>) -> Seq<Seq<char>> {
    Seq::new(
        receivers.len(),
        |i: int| display_text(receivers[i].name@, decode_utf8(receivers[i].value@)),
    )
}

/// Shows some header receivers: a list in square brackets.
pub fn header_receivers_to_string(header_receivers: &[HeaderReceiver]) -> (r: String)
    ensures
        r@ == listed(receiver_texts(header_receivers@)),
{
    let n: usize = header_receivers.len();
    let ghost texts = receiver_texts(header_receivers@);
    let mut text = String::from_str("[");
    let mut i: usize = 0;
    while i < n
        invariant
            n == header_receivers@.len(),
            i <= n,
            texts == receiver_texts(header_receivers@),
            text@ == "["@ + joined(texts.subrange(0, i as int)),
        decreases n - i,
    {
        let ghost before = texts.subrange(0, i as int);
        let ghost longer = texts.subrange(0, i + 1);
        proof {
            assert(longer.drop_last() =~= before);
            assert(longer.last() == texts[i as int]);
        }
        if i > 0 {
            text.append(", ");
        }
        let one = header_receivers[i].to_string();
        text.append(one.as_str());
        proof {
            if i == 0 {
                assert(joined(before) =~= Seq::<char>::empty());
                assert(longer[0] == texts[0]);
            }
            assert(text@ =~= "["@ + joined(longer));
        }
        i = i + 1;
    }
    assert(texts.subrange(0, n as int) =~= texts);
    text.append("]");
    text
}

} // verus!
