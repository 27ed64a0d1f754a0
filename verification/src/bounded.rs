//! Strings of bounded length that live on the stack.  They are kept in
//! `string_wrapper::StringWrapper`; what is said here of its methods was read
//! from its source and is not proved.

use vstd::prelude::*;
use vstd::string::StringSliceAdditionalSpecFns;
use string_wrapper::StringWrapper;

verus! {

/// The most bytes that a method name can have.
pub const METHOD_NAME_MAX: usize = 16;

/// The most bytes that a captured header value can have.
pub const HEADER_VALUE_MAX: usize = 256;

/// The most bytes that the path of a request can have.
pub const REQUEST_PATH_MAX: usize = 512;

/// Whether `b` can start the UTF-8 encoding of a character: it is an ASCII
/// byte or a leading byte.
pub open spec fn starts_sequence(b: u8) -> bool {
    b < 128 || b >= 192
}

/// The length of the longest prefix of `s` that has at most `room` bytes and
/// ends before a byte that starts a character.
pub open spec fn fitting_prefix_len(s: Seq<u8>, room: int) -> int
    decreases room,
{
    if room <= 0 {
        0
    } else if room < s.len() && !starts_sequence(s[room]) {
        fitting_prefix_len(s, room - 1)
    } else {
        room
    }
}

/// What a bounded string with `cap` bytes of room holds after as much of `s`
/// as fits was pushed behind `held`.
pub open spec fn pushed_partial(held: Seq<u8>, s: Seq<u8>, cap: int) -> Seq<u8> {
    if held.len() + s.len() <= cap {
        held + s
    } else {
        held + s.subrange(0, fitting_prefix_len(s, cap - held.len()))
    }
}

/// A method name of at most 16 bytes.
#[verifier::external_body]
#[derive(Debug, PartialEq, Eq)]
pub struct MethodName(StringWrapper<[u8; 16]>);

/// The bytes of the text that a `MethodName` holds.
pub uninterp spec fn method_name_bytes(name: MethodName) -> Seq<u8>;

impl View for MethodName {
    type V = Seq<u8>;

    open spec fn view(&self) -> Seq<u8> {
        method_name_bytes(*self)
    }
}

/// `StringWrapper::from_str_safe`: a string of at most 16 bytes is copied,
/// a longer one gives `None`.
#[verifier::external_body]
fn method_name_from_str_safe(s: &str) -> (r: Option<MethodName>)
    ensures
        r is Some <==> s.spec_bytes().len() <= METHOD_NAME_MAX,
        r is Some ==> method_name_bytes(r.unwrap()) == s.spec_bytes(),
{
    StringWrapper::from_str_safe(s).map(MethodName)
}

/// `StringWrapper::deref`: the text that is held.
#[verifier::external_body]
fn method_name_deref(name: &MethodName) -> (r: &str)
    ensures
        r.spec_bytes() == method_name_bytes(*name),
{
    std::ops::Deref::deref(&name.0)
}

impl Clone for MethodName {
    /// `StringWrapper::clone`: a copy of the value.
    #[verifier::external_body]
    fn clone(&self) -> (r: MethodName)
        ensures
            r == *self,
    {
        MethodName(self.0.clone())
    }
}

impl MethodName {
    /// Copies `s`, or returns `None` if `s` has more than 16 bytes.
    pub fn from_str_safe(s: &str) -> (r: Option<MethodName>)
        ensures
            r is Some <==> s.spec_bytes().len() <= METHOD_NAME_MAX,
            r is Some ==> r.unwrap()@ == s.spec_bytes(),
    {
        method_name_from_str_safe(s)
    }

    /// The text.
    pub fn as_str(&self) -> (r: &str)
        ensures
            r.spec_bytes() == self@,
    {
        method_name_deref(self)
    }
}

/// A header value of at most 256 bytes.
#[verifier::external_body]
#[derive(Debug, PartialEq, Eq)]
pub struct HeaderValue(StringWrapper<[u8; 256]>);

/// The bytes of the text that a `HeaderValue` holds.
pub uninterp spec fn header_value_bytes(value: HeaderValue) -> Seq<u8>;

impl View for HeaderValue {
    type V = Seq<u8>;

    open spec fn view(&self) -> Seq<u8> {
        header_value_bytes(*self)
    }
}

/// `StringWrapper::from_str` on the empty string: an empty value.
#[verifier::external_body]
fn header_value_empty() -> (r: HeaderValue)
    ensures
        header_value_bytes(r) == Seq::<u8>::empty(),
{
    HeaderValue(StringWrapper::from_str(""))
}

/// `StringWrapper::truncate`: keeps the first `new_len` bytes.  It panics
/// where `new_len` is more than the length or does not start a character;
/// what is held is well-formed UTF-8, so its first byte always starts one.
#[verifier::external_body]
fn header_value_truncate(value: &mut HeaderValue, new_len: usize)
    requires
        new_len <= header_value_bytes(*old(value)).len(),
        0 < new_len < header_value_bytes(*old(value)).len() ==> starts_sequence(
            header_value_bytes(*old(value))[new_len as int],
        ),
    ensures
        header_value_bytes(*final(value)) == header_value_bytes(*old(value)).subrange(
            0,
            new_len as int,
        ),
{
    value.0.truncate(new_len)
}

/// `StringWrapper::push_partial_str`: appends `s` if it fits, else its
/// longest prefix that fits and ends between two characters; it then returns
/// the length of that prefix as the error.
#[verifier::external_body]
fn header_value_push_partial_str(value: &mut HeaderValue, s: &str) -> (r: Result<(), usize>)
    requires
        header_value_bytes(*old(value)).len() <= HEADER_VALUE_MAX,
    ensures
        r is Ok <==> header_value_bytes(*old(value)).len() + s.spec_bytes().len()
            <= HEADER_VALUE_MAX,
        r matches Err(n) ==> n == fitting_prefix_len(
            s.spec_bytes(),
            HEADER_VALUE_MAX - header_value_bytes(*old(value)).len(),
        ),
        header_value_bytes(*final(value)) == pushed_partial(
            header_value_bytes(*old(value)),
            s.spec_bytes(),
            HEADER_VALUE_MAX as int,
        ),
{
    value.0.push_partial_str(s)
}

/// `StringWrapper::deref`: the text that is held.
#[verifier::external_body]
fn header_value_deref(value: &HeaderValue) -> (r: &str)
    ensures
        r.spec_bytes() == header_value_bytes(*value),
{
    std::ops::Deref::deref(&value.0)
}

impl HeaderValue {
    /// Makes an empty value.
    pub fn new() -> (r: HeaderValue)
        ensures
            r@ == Seq::<u8>::empty(),
    {
        header_value_empty()
    }

    /// Replaces what is held by `s`, or by as much of the front of `s` as
    /// fits.  Fails if `s` did not fit.
    pub fn set(&mut self, s: &str) -> (r: Result<(), usize>)
        ensures
            r is Ok <==> s.spec_bytes().len() <= HEADER_VALUE_MAX,
            final(self)@ == pushed_partial(
                Seq::<u8>::empty(),
                s.spec_bytes(),
                HEADER_VALUE_MAX as int,
            ),
    {
        header_value_truncate(self, 0);
        assert(self@ =~= Seq::<u8>::empty());
        header_value_push_partial_str(self, s)
    }

    /// The text.
    pub fn as_str(&self) -> (r: &str)
        ensures
            r.spec_bytes() == self@,
    {
        header_value_deref(self)
    }
}

/// The path of a request: at most 512 bytes.
#[verifier::external_body]
#[derive(Debug, PartialEq, Eq)]
pub struct RequestPath(StringWrapper<[u8; 512]>);

/// The bytes of the text that a `RequestPath` holds.
pub uninterp spec fn request_path_bytes(path: RequestPath) -> Seq<u8>;

impl View for RequestPath {
    type V = Seq<u8>;

    open spec fn view(&self) -> Seq<u8> {
        request_path_bytes(*self)
    }
}

/// `StringWrapper::from_str` on the empty string: an empty path.
#[verifier::external_body]
fn request_path_empty() -> (r: RequestPath)
    ensures
        request_path_bytes(r) == Seq::<u8>::empty(),
{
    RequestPath(StringWrapper::from_str(""))
}

/// `StringWrapper::truncate`: keeps the first `new_len` bytes.  It panics
/// where `new_len` is more than the length or does not start a character;
/// what is held is well-formed UTF-8, so its first byte always starts one.
#[verifier::external_body]
fn request_path_truncate(path: &mut RequestPath, new_len: usize)
    requires
        new_len <= request_path_bytes(*old(path)).len(),
        0 < new_len < request_path_bytes(*old(path)).len() ==> starts_sequence(
            request_path_bytes(*old(path))[new_len as int],
        ),
    ensures
        request_path_bytes(*final(path)) == request_path_bytes(*old(path)).subrange(
            0,
            new_len as int,
        ),
{
    path.0.truncate(new_len)
}

/// `StringWrapper::push_partial_str`: appends `s` if it fits, else its
/// longest prefix that fits and ends between two characters; it then returns
/// the length of that prefix as the error.
#[verifier::external_body]
fn request_path_push_partial_str(path: &mut RequestPath, s: &str) -> (r: Result<(), usize>)
    requires
        request_path_bytes(*old(path)).len() <= REQUEST_PATH_MAX,
    ensures
        r is Ok <==> request_path_bytes(*old(path)).len() + s.spec_bytes().len()
            <= REQUEST_PATH_MAX,
        r matches Err(n) ==> n == fitting_prefix_len(
            s.spec_bytes(),
            REQUEST_PATH_MAX - request_path_bytes(*old(path)).len(),
        ),
        request_path_bytes(*final(path)) == pushed_partial(
            request_path_bytes(*old(path)),
            s.spec_bytes(),
            REQUEST_PATH_MAX as int,
        ),
{
    path.0.push_partial_str(s)
}

/// `StringWrapper::deref`: the text that is held.
#[verifier::external_body]
fn request_path_deref(path: &RequestPath) -> (r: &str)
    ensures
        r.spec_bytes() == request_path_bytes(*path),
{
    std::ops::Deref::deref(&path.0)
}

impl RequestPath {
    /// Makes an empty path.
    pub fn new() -> (r: RequestPath)
        ensures
            r@ == Seq::<u8>::empty(),
    {
        request_path_empty()
    }

    /// Empties the path.
    pub fn clear(&mut self)
        ensures
            final(self)@ == Seq::<u8>::empty(),
    {
        request_path_truncate(self, 0);
        assert(self@ =~= Seq::<u8>::empty());
    }

    /// Replaces what is held by `s`, or by as much of the front of `s` as
    /// fits.  Fails if `s` did not fit.
    pub fn set(&mut self, s: &str) -> (r: Result<(), usize>)
        ensures
            r is Ok <==> s.spec_bytes().len() <= REQUEST_PATH_MAX,
            final(self)@ == pushed_partial(
                Seq::<u8>::empty(),
                s.spec_bytes(),
                REQUEST_PATH_MAX as int,
            ),
    {
        request_path_truncate(self, 0);
        assert(self@ =~= Seq::<u8>::empty());
        request_path_push_partial_str(self, s)
    }

    /// The text.
    pub fn as_str(&self) -> (r: &str)
        ensures
            r.spec_bytes() == self@,
    {
        request_path_deref(self)
    }
}

} // verus!
