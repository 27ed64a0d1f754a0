//! The first line of a request.

use vstd::prelude::*;
use vstd::string::StringSliceAdditionalSpecFns;
use vstd::utf8::valid_utf8;
use crate::search::{find_first, first_match, lemma_first_match_props};
use crate::status::{HttpCallerError, HttpError};
use crate::text::{bytes_eq, lemma_valid_utf8_piece, str_from_utf8};

verus! {

/// A single space.
pub open spec fn space() -> Seq<u8> {
    seq![0x20u8]
}

/// The method and the raw path of a request line, as bytes: the line must
/// be valid UTF-8 and have the shape `METHOD SP PATH SP HTTP/1.1`, where the
/// method is not empty, the path starts with `/`, and neither holds a space.
pub open spec fn request_line_parts(line: Seq<u8>) -> Option<(Seq<u8>, Seq<u8>)> {
    match first_match(line, space()) {
        None => None,
        Some(m) => {
            let rest = line.subrange(m + 1, line.len() as int);
            match first_match(rest, space()) {
                None => None,
                Some(p) => if valid_utf8(line) && m > 0 && p > 0 && rest[0] == 0x2f
                    && rest.subrange(p + 1, rest.len() as int) == "HTTP/1.1".spec_bytes() {
                    Some((line.subrange(0, m), rest.subrange(0, p)))
                } else {
                    None
                },
            }
        },
    }
}

/// The two parts of a request line that the server looks at.
#[derive(Debug, PartialEq)]
pub struct HttpRequestLine<'a> {
    method: &'a str,
    raw_path: &'a str,
}

impl<'a> HttpRequestLine<'a> {
    /// The bytes of the method.
    pub closed spec fn method_bytes(&self) -> Seq<u8> {
        self.method.spec_bytes()
    }

    /// The bytes of the path, as they stood in the line.
    pub closed spec fn raw_path_bytes(&self) -> Seq<u8> {
        self.raw_path.spec_bytes()
    }

    /// The method, as it stood in the line.
    pub fn method(&self) -> (r: &'a str)
        ensures
            r.spec_bytes() == self.method_bytes(),
    {
        self.method
    }

    /// The path, as it stood in the line: not yet percent-decoded.
    pub fn raw_path(&self) -> (r: &'a str)
        ensures
            r.spec_bytes() == self.raw_path_bytes(),
    {
        self.raw_path
    }

    /// Parses a request line.  Any line that is not valid UTF-8 of the shape
    /// `METHOD SP PATH SP HTTP/1.1` fails with `RequestLineInvalid`.
    pub fn parse(line_bytes: &'a [u8]) -> (r: Result<HttpRequestLine<'a>, HttpError>)
        ensures
            match request_line_parts(line_bytes@) {
                Some((method, raw_path)) => r matches Ok(l) && l.method_bytes() == method
                    && l.raw_path_bytes() == raw_path,
                None => r == Err::<HttpRequestLine<'a>, HttpError>(
                    HttpError::ParseError(HttpCallerError::RequestLineInvalid),
                ),
            },
    {
        if str_from_utf8(line_bytes).is_none() {
            return Err(HttpError::ParseError(HttpCallerError::RequestLineInvalid));
        }
        let sp: [u8; 1] = [0x20u8];
        assert(sp@ =~= space());
        let len: usize = line_bytes.len();
        let m: usize = match find_first(line_bytes, sp.as_slice()) {
            Some(m) => m,
            None => {
                return Err(HttpError::ParseError(HttpCallerError::RequestLineInvalid));
            },
        };
        proof {
            lemma_first_match_props(line_bytes@, space());
            assert(line_bytes@.subrange(m as int, m + 1)[0] == 0x20u8);
        }
        let rest = vstd::slice::slice_subrange(line_bytes, m + 1, len);
        let p: usize = match find_first(rest, sp.as_slice()) {
            Some(p) => p,
            None => {
                return Err(HttpError::ParseError(HttpCallerError::RequestLineInvalid));
            },
        };
        proof {
            lemma_first_match_props(rest@, space());
            assert(rest@.subrange(p as int, p + 1)[0] == 0x20u8);
        }
        if m == 0 || p == 0 || rest[0] != 0x2f {
            return Err(HttpError::ParseError(HttpCallerError::RequestLineInvalid));
        }
        let tail = vstd::slice::slice_subrange(rest, p + 1, rest.len());
        if !bytes_eq(tail, "HTTP/1.1".as_bytes()) {
            return Err(HttpError::ParseError(HttpCallerError::RequestLineInvalid));
        }
        let method_bytes = vstd::slice::slice_subrange(line_bytes, 0, m);
        let path_bytes = vstd::slice::slice_subrange(rest, 0, p);
        proof {
            lemma_valid_utf8_piece(line_bytes@, 0, m as int);
            lemma_valid_utf8_piece(line_bytes@, m + 1, m + 1 + p);
            assert(path_bytes@ =~= line_bytes@.subrange(m + 1, m + 1 + p));
        }
        match (str_from_utf8(method_bytes), str_from_utf8(path_bytes)) {
            (Some(method), Some(raw_path)) => Ok(HttpRequestLine { method, raw_path }),
            _ => Err(HttpError::ParseError(HttpCallerError::RequestLineInvalid)),
        }
    }
}

} // verus!
