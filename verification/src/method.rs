//! Request methods.

use vstd::prelude::*;
use vstd::string::StringSliceAdditionalSpecFns;
use vstd::utf8::is_ascii_chars_encode_utf8;
use crate::bounded::{MethodName, METHOD_NAME_MAX};
use crate::status::{HttpCallerError, HttpError};
use crate::text::bytes_eq;

verus! {

/// `b` is an ASCII upper-case letter.
pub open spec fn is_upper(b: u8) -> bool {
    0x41 <= b <= 0x5a
}

/// `b` is an ASCII digit.
pub open spec fn is_digit(b: u8) -> bool {
    0x30 <= b <= 0x39
}

/// `s` is a method name: an upper-case letter, then upper-case letters and
/// digits.
pub open spec fn is_method_token(s: Seq<u8>) -> bool {
    &&& s.len() > 0
    &&& is_upper(s[0])
    &&& forall|i: int| 0 <= i < s.len() ==> is_upper(#[trigger] s[i]) || is_digit(s[i])
}

/// A request method: one of the five common ones, or another name of at most
/// 16 bytes.
#[derive(Debug, PartialEq)]
pub enum HttpMethod {
    DELETE,
    GET,
    HEAD,
    POST,
    PUT,
    Other(MethodName),
}

impl Clone for HttpMethod {
    fn clone(&self) -> (r: HttpMethod)
        ensures
            r == *self,
    {
        match self {
            HttpMethod::DELETE => HttpMethod::DELETE,
            HttpMethod::GET => HttpMethod::GET,
            HttpMethod::HEAD => HttpMethod::HEAD,
            HttpMethod::POST => HttpMethod::POST,
            HttpMethod::PUT => HttpMethod::PUT,
            HttpMethod::Other(name) => HttpMethod::Other(name.clone()),
        }
    }
}

impl HttpMethod {
    /// The bytes of the method's name.
    pub open spec fn name(self) -> Seq<u8> {
        match self {
            HttpMethod::DELETE => "DELETE".spec_bytes(),
            HttpMethod::GET => "GET".spec_bytes(),
            HttpMethod::HEAD => "HEAD".spec_bytes(),
            HttpMethod::POST => "POST".spec_bytes(),
            HttpMethod::PUT => "PUT".spec_bytes(),
            HttpMethod::Other(n) => n@,
        }
    }

    /// The common method that has the name `s`, if there is one.
    pub open spec fn common(s: Seq<u8>) -> Option<HttpMethod> {
        if s == "DELETE".spec_bytes() {
            Some(HttpMethod::DELETE)
        } else if s == "GET".spec_bytes() {
            Some(HttpMethod::GET)
        } else if s == "HEAD".spec_bytes() {
            Some(HttpMethod::HEAD)
        } else if s == "POST".spec_bytes() {
            Some(HttpMethod::POST)
        } else if s == "PUT".spec_bytes() {
            Some(HttpMethod::PUT)
        } else {
            None
        }
    }

    /// Why `s` is no method: `MethodInvalid` unless it is an upper-case
    /// letter followed by upper-case letters and digits, and `MethodTooLong` if
    /// it is none of the common methods and longer than 16 bytes.
    pub open spec fn name_error(s: Seq<u8>) -> Option<HttpCallerError> {
        if !is_method_token(s) {
            Some(HttpCallerError::MethodInvalid)
        } else if Self::common(s) is None && s.len() > METHOD_NAME_MAX {
            Some(HttpCallerError::MethodTooLong)
        } else {
            None
        }
    }

    /// Whether this is the method with the name `s`: the common method of
    /// that name if there is one, else another method that holds the name.
    pub open spec fn is_named(self, s: Seq<u8>) -> bool {
        match Self::common(s) {
            Some(m) => self == m,
            None => self matches HttpMethod::Other(n) && n@ == s,
        }
    }

    /// Parses a method name.  Fails with `MethodInvalid` unless `s` is an
    /// upper-case letter followed by upper-case letters and digits, and with
    /// `MethodTooLong` if it is none of the common methods and longer than 16
    /// bytes.
    pub fn from_str(s: &str) -> (r: Result<HttpMethod, HttpError>)
        ensures
            match Self::name_error(s.spec_bytes()) {
                Some(e) => r == Err::<HttpMethod, HttpError>(HttpError::ParseError(e)),
                None => r matches Ok(m) && m.is_named(s.spec_bytes()),
            },
            r matches Ok(m) ==> m.name() == s.spec_bytes(),
    {
        let bytes = s.as_bytes();
        if !is_token(bytes) {
            return Err(HttpError::ParseError(HttpCallerError::MethodInvalid));
        }
        if bytes_eq(bytes, "DELETE".as_bytes()) {
            Ok(HttpMethod::DELETE)
        } else if bytes_eq(bytes, "GET".as_bytes()) {
            Ok(HttpMethod::GET)
        } else if bytes_eq(bytes, "HEAD".as_bytes()) {
            Ok(HttpMethod::HEAD)
        } else if bytes_eq(bytes, "POST".as_bytes()) {
            Ok(HttpMethod::POST)
        } else if bytes_eq(bytes, "PUT".as_bytes()) {
            Ok(HttpMethod::PUT)
        } else {
            match MethodName::from_str_safe(s) {
                Some(name) => Ok(HttpMethod::Other(name)),
                None => Err(HttpError::ParseError(HttpCallerError::MethodTooLong)),
            }
        }
    }

    /// Returns the method's name.
    pub fn as_str(&self) -> (r: &str)
        ensures
            r.spec_bytes() == self.name(),
    {
        match self {
            HttpMethod::DELETE => "DELETE",
            HttpMethod::GET => "GET",
            HttpMethod::HEAD => "HEAD",
            HttpMethod::POST => "POST",
            HttpMethod::PUT => "PUT",
            HttpMethod::Other(name) => name.as_str(),
        }
    }
}

/// Whether `s` is a method name.
fn is_token(s: &[u8]) -> (r: bool)
    ensures
        r == is_method_token(s@),
{
    if s.len() == 0 {
        return false;
    }
    if !(0x41 <= s[0] && s[0] <= 0x5a) {
        return false;
    }
    let n: usize = s.len();
    let mut i: usize = 0;
    while i < n
        invariant
            n == s@.len(),
            i <= n,
            forall|k: int| 0 <= k < i ==> is_upper(#[trigger] s@[k]) || is_digit(s@[k]),
        decreases n - i,
    {
        let b: u8 = s[i];
        if !((0x41 <= b && b <= 0x5a) || (0x30 <= b && b <= 0x39)) {
            return false;
        }
        i = i + 1;
    }
    true
}

/// The names of the five common methods are method names, and each is
/// parsed to its method.
pub proof fn lemma_common_methods_parse(m: HttpMethod)
    requires
        !(m is Other),
    ensures
        is_method_token(m.name()),
        HttpMethod::name_error(m.name()) is None,
        m.is_named(m.name()),
{
    reveal_strlit("DELETE");
    reveal_strlit("GET");
    reveal_strlit("HEAD");
    reveal_strlit("POST");
    reveal_strlit("PUT");
    is_ascii_chars_encode_utf8("DELETE"@);
    is_ascii_chars_encode_utf8("GET"@);
    is_ascii_chars_encode_utf8("HEAD"@);
    is_ascii_chars_encode_utf8("POST"@);
    is_ascii_chars_encode_utf8("PUT"@);
    assert("DELETE".spec_bytes()[0] == 0x44);
    assert("GET".spec_bytes()[0] == 0x47);
    assert("HEAD".spec_bytes()[0] == 0x48);
    assert("POST".spec_bytes()[1] == 0x4f);
    assert("PUT".spec_bytes()[1] == 0x55);
}

/// A method parses from its own name: what `as_str` returns of a method that
/// `from_str` made gives that method again.
pub proof fn lemma_method_round_trip(m: HttpMethod, s: Seq<u8>)
    requires
        HttpMethod::name_error(s) is None,
        m.is_named(s),
    ensures
        m.name() == s,
        HttpMethod::name_error(m.name()) is None,
        m.is_named(m.name()),
{
}

} // verus!
