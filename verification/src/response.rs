//! The head of a response: status line, headers and the empty line.

use vstd::prelude::*;
use vstd::string::{StringExecFns, StringSliceAdditionalSpecFns};
use vstd::utf8::{encode_utf8, is_ascii_chars, is_ascii_chars_encode_utf8};
use crate::buffer_view::{empty_buffer, BufferView};
use crate::fixed_buffer::{FixedBuf, BUFFER_LEN};
use crate::header::{debug_text, header_texts, headers_to_string, listed, Header};
use crate::number::{decimal, decimal_digits};
use crate::status::{HttpError, HttpStatus};
use crate::text::{eq_ignore_ascii_case, eq_ignore_case};

verus! {

/// What a `Header` is: the bytes of its name and of its value.
pub struct HeaderView {
    pub name: Seq<u8>,
    pub value: Seq<u8>,
}

impl<'a> View for Header<'a> {
    type V = HeaderView;

    open spec fn view(&self) -> HeaderView {
        HeaderView { name: self.name.spec_bytes(), value: self.value.spec_bytes() }
    }
}

/// The views of some headers.
pub open spec fn header_views(headers: Seq<Header>) -> Seq<HeaderView> {
    Seq::new(headers.len(), |i: int| headers[i]@)
}

/// The buffer after `data` was written, if the end of the buffer had room.
pub open spec fn try_write(v: Option<BufferView>, data: Seq<u8>) -> Option<BufferView> {
    match v {
        Some(v) => if v.can_write(data.len() as int) {
            Some(v.write(data))
        } else {
            None
        },
        None => None,
    }
}

/// The buffer after the line of the header `h` was written: its name, a
/// colon and a space, its value, and a line end.
pub open spec fn with_header(v: Option<BufferView>, h: HeaderView) -> Option<BufferView> {
    try_write(
        try_write(try_write(try_write(v, h.name), ": ".spec_bytes()), h.value),
        "\r\n".spec_bytes(),
    )
}

/// The buffer after the lines of all of `headers` were written, in order.
pub open spec fn with_headers(v: Option<BufferView>, headers: Seq<HeaderView>) -> Option<
    BufferView,
>
    decreases headers.len(),
{
    if headers.len() == 0 {
        v
    } else {
        with_header(with_headers(v, headers.drop_last()), headers.last())
    }
}

/// The line of the `content-length` header for a body of `len` bytes.
pub open spec fn content_length_line(len: u64) -> Seq<u8> {
    "content-length: ".spec_bytes() + decimal(len as nat) + "\r\n".spec_bytes()
}

/// The first of `headers` that has the name `name`, in any case of its
/// letters.
pub open spec fn header_named(headers: Seq<HeaderView>, name: Seq<u8>) -> Option<int> {
    if exists|i: int| is_first_named(headers, name, i) {
        Some(choose|i: int| is_first_named(headers, name, i))
    } else {
        None
    }
}

/// Whether `i` is the first of `headers` that has the name `name`.
pub open spec fn is_first_named(headers: Seq<HeaderView>, name: Seq<u8>, i: int) -> bool {
    &&& 0 <= i < headers.len()
    &&& eq_ignore_case(headers[i].name, name)
    &&& forall|j: int| 0 <= j < i ==> !eq_ignore_case(headers[j].name, name)
}

/// Finds the first of `headers` that has the name `name`, in any case of its
/// letters.  Such a header is one that the caller may not send.
pub fn reject_header(name: &str, headers: &[Header]) -> (r: Option<usize>)
    ensures
        match header_named(header_views(headers@), name.spec_bytes()) {
            Some(i) => r == Some(i as usize) && 0 <= i < headers@.len(),
            None => r is None,
        },
{
    let n: usize = headers.len();
    let ghost views = header_views(headers@);
    let mut i: usize = 0;
    while i < n
        invariant
            n == headers@.len(),
            i <= n,
            views == header_views(headers@),
            forall|j: int| 0 <= j < i ==> !eq_ignore_case(views[j].name, name.spec_bytes()),
        decreases n - i,
    {
        if eq_ignore_ascii_case(headers[i].name.as_bytes(), name.as_bytes()) {
            proof {
                assert(is_first_named(views, name.spec_bytes(), i as int));
                let k = choose|k: int| is_first_named(views, name.spec_bytes(), k);
                if k < i {
                    assert(!eq_ignore_case(views[k].name, name.spec_bytes()));
                } else if i < k {
                    assert(!eq_ignore_case(views[i as int].name, name.spec_bytes()));
                }
            }
            return Some(i);
        }
        i = i + 1;
    }
    proof {
        assert forall|k: int| !is_first_named(views, name.spec_bytes(), k) by {
            if 0 <= k < n {
                assert(!eq_ignore_case(views[k].name, name.spec_bytes()));
            }
        }
    }
    None
}

/// Writes the line of `header` into `buf`.  Returns `None` as soon as one of
/// its parts does not fit; what was written until then stays.
pub fn push_header(buf: &mut FixedBuf, header: &Header) -> (r: Option<()>)
    ensures
        r is Some <==> with_header(Some(old(buf)@), header@) is Some,
        r is Some ==> final(buf)@ == with_header(Some(old(buf)@), header@).unwrap(),
        final(buf)@.wf(),
        final(buf)@.mem.len() == BUFFER_LEN,
{
    if buf.try_append(header.name).is_none() {
        return None;
    }
    if buf.try_append(": ").is_none() {
        return None;
    }
    if buf.try_append(header.value).is_none() {
        return None;
    }
    buf.try_append("\r\n")
}

/// Writes the lines of `headers` into `buf`, in order.  Returns `None` as
/// soon as something does not fit.
pub fn append_extra_headers(buf: &mut FixedBuf, headers: &[Header]) -> (r: Option<()>)
    ensures
        r is Some <==> with_headers(Some(old(buf)@), header_views(headers@)) is Some,
        r is Some ==> final(buf)@ == with_headers(Some(old(buf)@), header_views(headers@)).unwrap(),
{
    let n: usize = headers.len();
    let ghost views = header_views(headers@);
    let mut i: usize = 0;
    while i < n
        invariant
            n == headers@.len(),
            i <= n,
            views == header_views(headers@),
            with_headers(Some(old(buf)@), views.subrange(0, i as int)) == Some(buf@),
        decreases n - i,
    {
        let ghost before = views.subrange(0, i as int);
        let ghost longer = views.subrange(0, i + 1);
        proof {
            assert(longer.drop_last() =~= before);
            assert(longer.last() == headers@[i as int]@);
        }
        if push_header(buf, &headers[i]).is_none() {
            proof {
                lemma_with_headers_none(Some(old(buf)@), views, i + 1);
            }
            return None;
        }
        i = i + 1;
    }
    assert(views.subrange(0, n as int) =~= views);
    Some(())
}

/// Once the lines of some headers do not fit, those of more headers do not
/// fit either.
proof fn lemma_with_headers_none(v: Option<BufferView>, headers: Seq<HeaderView>, k: int)
    requires
        0 <= k <= headers.len(),
        with_headers(v, headers.subrange(0, k)) is None,
    ensures
        with_headers(v, headers) is None,
    decreases headers.len() - k,
{
    if k < headers.len() {
        let longer = headers.subrange(0, k + 1);
        assert(longer.drop_last() =~= headers.subrange(0, k));
        lemma_with_headers_none(v, headers, k + 1);
    } else {
        assert(headers.subrange(0, k) =~= headers);
    }
}

/// Every status line is ASCII and has at most 64 bytes.
pub proof fn lemma_status_line_is_short(status: HttpStatus)
    ensures
        is_ascii_chars(status.line()),
        encode_utf8(status.line()).len() == status.line().len(),
        0 < status.line().len() <= 64,
{
    reveal_strlit("HTTP/1.1 100 Continue\r\n");
    reveal_strlit("HTTP/1.1 200 OK\r\n");
    reveal_strlit("HTTP/1.1 201 Created\r\n");
    reveal_strlit("HTTP/1.1 400 Bad Request\r\n");
    reveal_strlit("HTTP/1.1 404 Not Found\r\n");
    reveal_strlit("HTTP/1.1 405 Method Not Allowed\r\n");
    reveal_strlit("HTTP/1.1 411 Length Required\r\n");
    reveal_strlit("HTTP/1.1 413 Payload Too Large\r\n");
    reveal_strlit("HTTP/1.1 414 URI Too Long\r\n");
    reveal_strlit("HTTP/1.1 431 Request Header Fields Too Large\r\n");
    reveal_strlit("HTTP/1.1 500 Internal Server Error\r\n");
    assert(is_ascii_chars(status.line()));
    is_ascii_chars_encode_utf8(status.line());
}

/// The first of `headers` that the caller may not send: the protocol owns
/// `transfer-encoding`, `content-length`, `content-type` and
/// `content-encoding`, in any case of their letters.  An earlier name in this
/// list counts before an earlier header.
pub open spec fn first_rejected(headers: Seq<HeaderView>) -> Option<int> {
    if header_named(headers, "transfer-encoding".spec_bytes()) is Some {
        header_named(headers, "transfer-encoding".spec_bytes())
    } else if header_named(headers, "content-length".spec_bytes()) is Some {
        header_named(headers, "content-length".spec_bytes())
    } else if header_named(headers, "content-type".spec_bytes()) is Some {
        header_named(headers, "content-type".spec_bytes())
    } else {
        header_named(headers, "content-encoding".spec_bytes())
    }
}

/// Finds the first of `headers` that the caller may not send.
pub fn reject_headers(headers: &[Header]) -> (r: Option<usize>)
    ensures
        match first_rejected(header_views(headers@)) {
            Some(i) => r == Some(i as usize) && 0 <= i < headers@.len(),
            None => r is None,
        },
{
    if let Some(i) = reject_header("transfer-encoding", headers) {
        return Some(i);
    }
    if let Some(i) = reject_header("content-length", headers) {
        return Some(i);
    }
    if let Some(i) = reject_header("content-type", headers) {
        return Some(i);
    }
    reject_header("content-encoding", headers)
}

/// The bytes of the status line of `status`.
pub open spec fn status_line(status: HttpStatus) -> Seq<u8> {
    encode_utf8(status.line())
}

/// The line that tells the type of a text body.
pub open spec fn content_type_line() -> Seq<u8> {
    "content-type: text/plain; charset=UTF-8\r\n".spec_bytes()
}

/// The start of a response head: the status line, the type of the body
/// where the body is a text, and its length.
pub open spec fn head_start(status: HttpStatus, is_text: bool, content_length: u64) -> Seq<u8> {
    status_line(status) + (if is_text {
        content_type_line()
    } else {
        Seq::empty()
    }) + content_length_line(content_length)
}

/// The buffer that holds a whole response head: its start, the lines of
/// `headers` and an empty line.  `None` if the buffer has no room for it.
pub open spec fn response_head(start: Seq<u8>, headers: Seq<HeaderView>) -> Option<BufferView> {
    try_write(
        with_headers(Some(empty_buffer(BUFFER_LEN as nat).write(start)), headers),
        "\r\n".spec_bytes(),
    )
}

/// The lengths of the fixed parts of a response head.
proof fn lemma_fixed_parts()
    ensures
        content_type_line().len() == 41,
        "content-length: ".spec_bytes().len() == 16,
        ": ".spec_bytes().len() == 2,
        "\r\n".spec_bytes().len() == 2,
{
    reveal_strlit("content-type: text/plain; charset=UTF-8\r\n");
    reveal_strlit("content-length: ");
    reveal_strlit(": ");
    reveal_strlit("\r\n");
    is_ascii_chars_encode_utf8("content-type: text/plain; charset=UTF-8\r\n"@);
    is_ascii_chars_encode_utf8("content-length: "@);
    is_ascii_chars_encode_utf8(": "@);
    is_ascii_chars_encode_utf8("\r\n"@);
}

/// The line of the header `h`: its name, a colon and a space, its value,
/// and a line end.
pub open spec fn header_line(h: HeaderView) -> Seq<u8> {
    h.name + ": ".spec_bytes() + h.value + "\r\n".spec_bytes()
}

/// The lines of `headers`, in order.
pub open spec fn header_lines(headers: Seq<HeaderView>) -> Seq<u8>
    decreases headers.len(),
{
    if headers.len() == 0 {
        Seq::empty()
    } else {
        header_lines(headers.drop_last()) + header_line(headers.last())
    }
}

/// The lines of some headers fit into a buffer if and only if the end of
/// its memory has room for all their bytes, and they then become readable
/// behind what was readable.
pub proof fn lemma_with_headers_bytes(v: BufferView, headers: Seq<HeaderView>)
    requires
        v.wf(),
    ensures
        with_headers(Some(v), headers) is Some <==> v.write_index + header_lines(headers).len()
            <= v.mem.len(),
        with_headers(Some(v), headers) matches Some(w) ==> {
            &&& w.wf()
            &&& w.mem.len() == v.mem.len()
            &&& w.read_index == v.read_index
            &&& w.write_index == v.write_index + header_lines(headers).len()
            &&& w.readable() == v.readable() + header_lines(headers)
        },
    decreases headers.len(),
{
    lemma_fixed_parts();
    if headers.len() == 0 {
        assert(v.readable() + header_lines(headers) =~= v.readable());
    } else {
        let h = headers.last();
        lemma_with_headers_bytes(v, headers.drop_last());
        let front = with_headers(Some(v), headers.drop_last());
        if front is Some {
            let w0 = front.unwrap();
            let w1 = try_write(front, h.name);
            let w2 = try_write(w1, ": ".spec_bytes());
            let w3 = try_write(w2, h.value);
            let w4 = try_write(w3, "\r\n".spec_bytes());
            if w4 is Some {
                assert(w4.unwrap().readable() =~= w0.readable() + header_line(h));
                assert(w4.unwrap().readable() =~= v.readable() + header_lines(headers));
            }
        }
    }
}

/// Wire format of a response head: the head fits into the buffer if and
/// only if it has at most as many bytes as the buffer, and the buffer then
/// holds, from its start on, the start of the head, the line of each header
/// and an empty line.
pub proof fn lemma_response_head_bytes(start: Seq<u8>, headers: Seq<HeaderView>)
    requires
        start.len() <= BUFFER_LEN,
    ensures
        response_head(start, headers) is Some <==> start.len() + header_lines(headers).len() + 2
            <= BUFFER_LEN,
        response_head(start, headers) matches Some(v) ==> {
            &&& v.wf()
            &&& v.read_index == 0
            &&& v.readable() == start + header_lines(headers) + "\r\n".spec_bytes()
        },
{
    lemma_fixed_parts();
    let v0 = empty_buffer(BUFFER_LEN as nat).write(start);
    assert(v0.readable() =~= start);
    lemma_with_headers_bytes(v0, headers);
    let w = with_headers(Some(v0), headers);
    if w is Some && try_write(w, "\r\n".spec_bytes()) is Some {
        let v = try_write(w, "\r\n".spec_bytes()).unwrap();
        assert(v.readable() =~= start + header_lines(headers) + "\r\n".spec_bytes());
    }
}

/// Makes a buffer that holds the start of a response head.
pub fn start_head(status: &HttpStatus, is_text: bool, content_length: u64) -> (buf: FixedBuf)
    ensures
        buf@ == empty_buffer(BUFFER_LEN as nat).write(head_start(*status, is_text, content_length)),
        buf@.wf(),
        buf@.mem.len() == BUFFER_LEN,
        head_start(*status, is_text, content_length).len() <= 143,
{
    proof {
        lemma_status_line_is_short(*status);
        lemma_fixed_parts();
    }
    let mut buf = FixedBuf::new();
    let ghost v0 = buf@;
    assert(v0 == empty_buffer(BUFFER_LEN as nat));
    let line = status.as_line();
    buf.append(line);
    if is_text {
        buf.append("content-type: text/plain; charset=UTF-8\r\n");
    }
    buf.append("content-length: ");
    let (digits, count) = decimal_digits(content_length);
    let written = std::io::Write::write(
        &mut buf,
        vstd::slice::slice_subrange(digits.as_slice(), 0, count),
    );
    buf.append("\r\n");
    assert(buf@.mem =~= v0.write(head_start(*status, is_text, content_length)).mem);
    buf
}

/// What tells the caller that the header `h` may not be sent.
pub open spec fn rejected_text(h: Header) -> Seq<char> {
    "invalid extra header "@ + debug_text("Header"@, h.name@, h.value@)
}

/// What tells the caller that the response head did not fit.
pub open spec fn buffer_full_text(headers: Seq<Header>) -> Seq<char> {
    "buffer full while pushing extra headers "@ + listed(header_texts(headers))
}

/// Makes a buffer that holds a whole response head.  Fails with
/// `InternalServerError500` if one of `extra_headers` is a header that the
/// caller may not send, or if the head does not fit into the buffer.
pub fn compose_head(
    status: &HttpStatus,
    is_text: bool,
    content_length: u64,
    extra_headers: &[Header],
) -> (r: Result<FixedBuf, HttpError>)
    ensures
        match first_rejected(header_views(extra_headers@)) {
            Some(i) => r matches Err(
                HttpError::ProcessingError(HttpStatus::InternalServerError500(text)),
            ) && text@ == rejected_text(extra_headers@[i]),
            None => match response_head(
                head_start(*status, is_text, content_length),
                header_views(extra_headers@),
            ) {
                Some(v) => r matches Ok(buf) && buf@ == v && buf@.wf() && buf@.mem.len()
                    == BUFFER_LEN,
                None => r matches Err(
                    HttpError::ProcessingError(HttpStatus::InternalServerError500(text)),
                ) && text@ == buffer_full_text(extra_headers@),
            },
        },
{
    let mut buf = start_head(status, is_text, content_length);
    if let Some(i) = reject_headers(extra_headers) {
        let mut text = String::from_str("invalid extra header ");
        let shown = extra_headers[i].to_debug_string();
        text.append(shown.as_str());
        return Err(HttpError::ProcessingError(HttpStatus::InternalServerError500(text)));
    }
    if append_extra_headers(&mut buf, extra_headers).is_none() {
        let mut text = String::from_str("buffer full while pushing extra headers ");
        let shown = headers_to_string(extra_headers);
        text.append(shown.as_str());
        return Err(HttpError::ProcessingError(HttpStatus::InternalServerError500(text)));
    }
    if buf.try_append("\r\n").is_none() {
        let mut text = String::from_str("buffer full while pushing extra headers ");
        let shown = headers_to_string(extra_headers);
        text.append(shown.as_str());
        return Err(HttpError::ProcessingError(HttpStatus::InternalServerError500(text)));
    }
    Ok(buf)
}

} // verus!
