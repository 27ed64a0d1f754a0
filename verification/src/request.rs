//! The head of a request: its request line and its header lines.

use vstd::prelude::*;
use vstd::string::StringSliceAdditionalSpecFns;
use vstd::utf8::valid_utf8;
use crate::bounded::{RequestPath, REQUEST_PATH_MAX};
use crate::header::{
    chunked_of, content_length_of, expects_continue_of, header_line_parts, parse_header_line,
    receiver_views, save_fails, save_header_value, saved, HeaderReceiver, HeaderReceiverView,
};
use crate::method::HttpMethod;
use crate::percent::{percent_decode, percent_decoded};
use crate::request_line::{request_line_parts, HttpRequestLine};
use crate::split_iterate::{pieces, split_iterate};
use crate::status::{HttpCallerError, HttpError};
use crate::text::{eq_ignore_ascii_case, eq_ignore_case, str_from_utf8};

verus! {

/// The most receivers for further headers that a caller may hand in.
pub const EXTRA_HEADERS_MAX: usize = 10;

/// The end of a line: carriage return and line feed.
pub open spec fn crlf() -> Seq<u8> {
    seq![0x0du8, 0x0au8]
}

/// The receivers while the header lines are read: those of the three
/// headers that the server reads itself (`content-length`, `expect` and
/// `transfer-encoding`, in this order), those of the caller, and whether a
/// `content-length` header was seen.
pub struct Receivers {
    pub known: Seq<HeaderReceiverView>,
    pub extra: Seq<HeaderReceiverView>,
    pub content_length_seen: bool,
}

/// The receivers before the first header line is read.
pub open spec fn receivers_at_start(extra: Seq<HeaderReceiverView>) -> Receivers {
    Receivers {
        known: seq![
            HeaderReceiverView { name: "content-length".spec_bytes(), value: Seq::empty() },
            HeaderReceiverView { name: "expect".spec_bytes(), value: Seq::empty() },
            HeaderReceiverView { name: "transfer-encoding".spec_bytes(), value: Seq::empty() },
        ],
        extra,
        content_length_seen: false,
    }
}

/// The receivers after one header line, and the error that the line gives,
/// if any.  A second `content-length` header is an error.  The value goes to
/// the server's own receiver of that name and to the first of the caller's;
/// a value that is too long for a receiver is an error, and what follows it
/// is not done.
pub open spec fn take_line(r: Receivers, line: Seq<u8>) -> (Receivers, Option<HttpCallerError>) {
    match header_line_parts(line) {
        None => (r, Some(HttpCallerError::HeaderLineInvalid)),
        Some((name, value)) => {
            let is_length = eq_ignore_case(name, "content-length".spec_bytes());
            if is_length && r.content_length_seen {
                (r, Some(HttpCallerError::ContentLengthHeaderDuplicate))
            } else {
                let seen = r.content_length_seen || is_length;
                let known = saved(r.known, name, value);
                if save_fails(r.known, name, value) {
                    (
                        Receivers { known, extra: r.extra, content_length_seen: seen },
                        Some(HttpCallerError::HeaderValueTooLong),
                    )
                } else {
                    (
                        Receivers {
                            known,
                            extra: saved(r.extra, name, value),
                            content_length_seen: seen,
                        },
                        if save_fails(r.extra, name, value) {
                            Some(HttpCallerError::HeaderValueTooLong)
                        } else {
                            None
                        },
                    )
                }
            }
        },
    }
}

/// The receivers after the header lines `lines`, and the first error, if
/// any.  Reading stops at the first empty line and at the first error.
pub open spec fn take_lines(r: Receivers, lines: Seq<Seq<u8>>) -> (
    Receivers,
    Option<HttpCallerError>,
)
    decreases lines.len(),
{
    if lines.len() == 0 || lines[0].len() == 0 {
        (r, None)
    } else {
        let (next, error) = take_line(r, lines[0]);
        if error is Some {
            (next, error)
        } else {
            take_lines(next, lines.drop_first())
        }
    }
}

/// What a request head says, as plain values.
pub struct RequestHead {
    /// The name of the method.
    pub method: Seq<u8>,
    /// The path, percent-decoded.
    pub path: Seq<u8>,
    pub expecting_100_continue: bool,
    pub content_length: u64,
    pub chunked: bool,
}

/// What the request line and the receivers make of a request, once all
/// header lines are read without error: the method must be a method name; the
/// path, percent-decoded, must be valid UTF-8 and fit into 512 bytes; and the
/// three headers must make sense.  The first of these that fails gives the
/// error.
pub open spec fn request_of(method: Seq<u8>, raw_path: Seq<u8>, known: Seq<HeaderReceiverView>)
    -> Result<RequestHead, HttpCallerError> {
    if HttpMethod::name_error(method) is Some {
        Err(HttpMethod::name_error(method).unwrap())
    } else if !valid_utf8(percent_decoded(raw_path)) {
        Err(HttpCallerError::PathInvalid)
    } else if percent_decoded(raw_path).len() > REQUEST_PATH_MAX {
        Err(HttpCallerError::PathTooLong)
    } else {
        match expects_continue_of(known[1].value) {
            Err(e) => Err(e),
            Ok(expecting_100_continue) => match content_length_of(known[0].value) {
                Err(e) => Err(e),
                Ok(content_length) => match chunked_of(known[2].value) {
                    Err(e) => Err(e),
                    Ok(chunked) => Ok(
                        RequestHead {
                            method,
                            path: percent_decoded(raw_path),
                            expecting_100_continue,
                            content_length,
                            chunked,
                        },
                    ),
                },
            },
        }
    }
}

/// What a request head gives, with the caller's receivers `extra`: the
/// request, or the first error.  More than ten receivers are an error; so is
/// a head without a request line; then come the errors of the request line, of
/// the header lines, and of what they say.
pub open spec fn parsed_head(head: Seq<u8>, extra: Seq<HeaderReceiverView>) -> Result<
    RequestHead,
    HttpCallerError,
> {
    let lines = pieces(head, crlf());
    if extra.len() > EXTRA_HEADERS_MAX {
        Err(HttpCallerError::TooManyExtraHeaders)
    } else if lines.len() == 0 {
        Err(HttpCallerError::RequestLineMissing)
    } else {
        match request_line_parts(lines[0]) {
            None => Err(HttpCallerError::RequestLineInvalid),
            Some((method, raw_path)) => {
                let (receivers, error) = take_lines(receivers_at_start(extra), lines.drop_first());
                match error {
                    Some(e) => Err(e),
                    None => request_of(method, raw_path, receivers.known),
                }
            },
        }
    }
}

/// The caller's receivers after a request head was read: as the header
/// lines leave them, or untouched where reading did not get as far as the
/// header lines.
pub open spec fn extra_after_head(head: Seq<u8>, extra: Seq<HeaderReceiverView>) -> Seq<
    HeaderReceiverView,
> {
    let lines = pieces(head, crlf());
    if extra.len() > EXTRA_HEADERS_MAX || lines.len() == 0 || request_line_parts(lines[0])
        is None {
        extra
    } else {
        take_lines(receivers_at_start(extra), lines.drop_first()).0.extra
    }
}

/// A request, as its head describes it.
#[derive(Debug)]
pub struct HttpRequest {
    pub method: HttpMethod,
    /// The path, percent-decoded.
    pub path: RequestPath,
    pub expecting_100_continue: bool,
    pub content_length: u64,
    pub chunked: bool,
}

impl HttpRequest {
    /// Whether this is the request that `head` describes.
    pub open spec fn is(&self, head: RequestHead) -> bool {
        &&& self.method.is_named(head.method)
        &&& self.path@ == head.path
        &&& self.expecting_100_continue == head.expecting_100_continue
        &&& self.content_length == head.content_length
        &&& self.chunked == head.chunked
    }

    /// Whether the request has a body: it has one if it is chunked or
    /// announces a length above zero.
    pub fn has_body(&self) -> (r: bool)
        ensures
            r == (self.chunked || self.content_length > 0),
    {
        self.chunked || self.content_length > 0
    }

    /// Parses a request head: the request line and the header lines up to
    /// the first empty line.  `extra_headers` take up the values of further
    /// headers that the caller wants to see.
    pub fn parse<'a>(head: &[u8], extra_headers: &mut [HeaderReceiver<'a>]) -> (r: Result<
        HttpRequest,
        HttpError,
    >)
        ensures
            match parsed_head(head@, receiver_views(old(extra_headers)@)) {
                Ok(said) => r matches Ok(request) && request.is(said),
                Err(e) => r == Err::<HttpRequest, HttpError>(HttpError::ParseError(e)),
            },
            receiver_views(final(extra_headers)@) == extra_after_head(
                head@,
                receiver_views(old(extra_headers)@),
            ),
            final(extra_headers)@.len() == old(extra_headers)@.len(),
            forall|i: int|
                0 <= i < old(extra_headers)@.len() ==> (#[trigger] final(extra_headers)@[i]).name
                    == old(extra_headers)@[i].name,
    {
        if extra_headers.len() > EXTRA_HEADERS_MAX {
            return Err(HttpError::ParseError(HttpCallerError::TooManyExtraHeaders));
        }
        let sep: [u8; 2] = [0x0du8, 0x0au8];
        assert(sep@ =~= crlf());
        let mut lines = split_iterate(head, sep.as_slice());
        let ghost all_lines = pieces(head@, crlf());
        let line_bytes = match lines.next() {
            Some(line_bytes) => line_bytes,
            None => {
                return Err(HttpError::ParseError(HttpCallerError::RequestLineMissing));
            },
        };
        let request_line = match HttpRequestLine::parse(line_bytes) {
            Ok(request_line) => request_line,
            Err(e) => {
                return Err(e);
            },
        };
        let mut known: [HeaderReceiver; 3] = [
            HeaderReceiver::new("content-length"),
            HeaderReceiver::new("expect"),
            HeaderReceiver::new("transfer-encoding"),
        ];
        let mut content_length_seen: bool = false;
        let ghost start = receivers_at_start(receiver_views(old(extra_headers)@));
        let ghost goal = take_lines(start, all_lines.drop_first());
        let ghost want = parsed_head(head@, receiver_views(old(extra_headers)@));
        let ghost want_extra = extra_after_head(head@, receiver_views(old(extra_headers)@));
        let ghost method_name = request_line.method_bytes();
        let ghost raw_path = request_line.raw_path_bytes();
        assert(receiver_views(known@) =~= start.known);
        assert(all_lines.drop_first() =~= pieces(lines@.data, lines@.sep));
        loop
            invariant_except_break
                goal == take_lines(
                    Receivers {
                        known: receiver_views(known@),
                        extra: receiver_views(extra_headers@),
                        content_length_seen,
                    },
                    pieces(lines@.data, lines@.sep),
                ),
            invariant
                lines@.sep == crlf(),
                extra_headers@.len() == old(extra_headers)@.len(),
                forall|i: int|
                    0 <= i < extra_headers@.len() ==> (#[trigger] extra_headers@[i]).name == old(
                        extra_headers,
                    )@[i].name,
                known@.len() == 3,
                known@[0]@.name == "content-length".spec_bytes(),
                known@[1]@.name == "expect".spec_bytes(),
                known@[2]@.name == "transfer-encoding".spec_bytes(),
                want == (match goal.1 {
                    Some(e) => Err(e),
                    None => request_of(method_name, raw_path, goal.0.known),
                }),
                want_extra == goal.0.extra,
                want == parsed_head(head@, receiver_views(old(extra_headers)@)),
                want_extra == extra_after_head(head@, receiver_views(old(extra_headers)@)),
            ensures
                extra_headers@.len() == old(extra_headers)@.len(),
                forall|i: int|
                    0 <= i < extra_headers@.len() ==> (#[trigger] extra_headers@[i]).name == old(
                        extra_headers,
                    )@[i].name,
                known@.len() == 3,
                known@[0]@.name == "content-length".spec_bytes(),
                known@[1]@.name == "expect".spec_bytes(),
                known@[2]@.name == "transfer-encoding".spec_bytes(),
                want == request_of(method_name, raw_path, receiver_views(known@)),
                want_extra == receiver_views(extra_headers@),
            decreases lines@.data.len(),
        {
            let ghost before = Receivers {
                known: receiver_views(known@),
                extra: receiver_views(extra_headers@),
                content_length_seen,
            };
            let ghost rest = pieces(lines@.data, lines@.sep);
            let line_bytes = match lines.next() {
                Some(line_bytes) => line_bytes,
                None => {
                    assert(goal == (before, None::<HttpCallerError>));
                    break ;
                },
            };
            assert(rest[0] == line_bytes@);
            assert(rest.drop_first() =~= pieces(lines@.data, lines@.sep));
            if line_bytes.len() == 0 {
                assert(goal == (before, None::<HttpCallerError>));
                break ;
            }
            let ghost step = take_line(before, line_bytes@);
            assert(goal == if step.1 is Some {
                step
            } else {
                take_lines(step.0, rest.drop_first())
            });
            let (name, value) = match parse_header_line(line_bytes) {
                Ok(pair) => pair,
                Err(e) => {
                    return Err(e);
                },
            };
            if eq_ignore_ascii_case(name.as_bytes(), "content-length".as_bytes()) {
                if content_length_seen {
                    return Err(
                        HttpError::ParseError(HttpCallerError::ContentLengthHeaderDuplicate),
                    );
                }
                content_length_seen = true;
            }
            match save_header_value(name, value, &mut known) {
                Ok(()) => {},
                Err(e) => {
                    assert(step.1 == Some(HttpCallerError::HeaderValueTooLong));
                    assert(step.0.extra == receiver_views(extra_headers@));
                    return Err(e);
                },
            }
            match save_header_value(name, value, extra_headers) {
                Ok(()) => {},
                Err(e) => {
                    assert(step.1 == Some(HttpCallerError::HeaderValueTooLong));
                    assert(step.0.extra == receiver_views(extra_headers@));
                    return Err(e);
                },
            }
            assert(step.1 is None);
            assert(step.0 == (Receivers {
                known: receiver_views(known@),
                extra: receiver_views(extra_headers@),
                content_length_seen,
            }));
        }
        let method = match HttpMethod::from_str(request_line.method()) {
            Ok(method) => method,
            Err(e) => {
                return Err(e);
            },
        };
        let decoded = percent_decode(request_line.raw_path().as_bytes());
        let decoded_path = match str_from_utf8(decoded.as_slice()) {
            Some(decoded_path) => decoded_path,
            None => {
                return Err(HttpError::ParseError(HttpCallerError::PathInvalid));
            },
        };
        let mut path = RequestPath::new();
        if path.set(decoded_path).is_err() {
            return Err(HttpError::ParseError(HttpCallerError::PathTooLong));
        }
        let expecting_100_continue = match known[1].is_100_continue() {
            Ok(b) => b,
            Err(e) => {
                return Err(e);
            },
        };
        let content_length = match known[0].parse_content_length() {
            Ok(n) => n,
            Err(e) => {
                return Err(e);
            },
        };
        let chunked = match known[2].is_chunked() {
            Ok(b) => b,
            Err(e) => {
                return Err(e);
            },
        };
        Ok(HttpRequest { method, path, expecting_100_continue, content_length, chunked })
    }
}

} // verus!
