//! Errors of input and output, as the standard library has them.

use vstd::prelude::*;
use crate::buffer_view::ReadDelimitedError;

verus! {

#[verifier::external_type_specification]
#[verifier::external_body]
pub struct ExIoError(std::io::Error);

/// The kinds of error that this library makes.
pub enum IoErrorKind {
    InvalidData,
    InvalidInput,
    NotFound,
    UnexpectedEof,
}

/// The error of input and output of the kind `kind` with the message `msg`.
pub uninterp spec fn io_error(kind: IoErrorKind, msg: Seq<char>) -> std::io::Error;

/// `std::io::Error::new` with the kind `InvalidData` and the message `msg`.
#[verifier::external_body]
pub(crate) fn invalid_data(msg: &str) -> (r: std::io::Error)
    ensures
        r == io_error(IoErrorKind::InvalidData, msg@),
{
    std::io::Error::new(std::io::ErrorKind::InvalidData, msg)
}

/// `std::io::Error::new` with the kind `InvalidInput` and the message `msg`.
#[verifier::external_body]
pub(crate) fn invalid_input(msg: &str) -> (r: std::io::Error)
    ensures
        r == io_error(IoErrorKind::InvalidInput, msg@),
{
    std::io::Error::new(std::io::ErrorKind::InvalidInput, msg)
}

/// `std::io::Error::new` with the kind `NotFound` and the message `msg`.
#[verifier::external_body]
pub(crate) fn not_found(msg: &str) -> (r: std::io::Error)
    ensures
        r == io_error(IoErrorKind::NotFound, msg@),
{
    std::io::Error::new(std::io::ErrorKind::NotFound, msg)
}

/// `std::io::Error::new` with the kind `UnexpectedEof` and the message
/// `msg`.
#[verifier::external_body]
pub(crate) fn unexpected_eof(msg: &str) -> (r: std::io::Error)
    ensures
        r == io_error(IoErrorKind::UnexpectedEof, msg@),
{
    std::io::Error::new(std::io::ErrorKind::UnexpectedEof, msg)
}

impl ReadDelimitedError {
    /// The error of input and output that stands for this one: of the kind
    /// `InvalidData` for a full buffer, `NotFound` for an input that ended
    /// with nothing read, `UnexpectedEof` for one that ended after bytes were
    /// read.
    pub open spec fn io_error(self) -> std::io::Error {
        match self {
            ReadDelimitedError::BufferFull => io_error(
                IoErrorKind::InvalidData,
                "end of buffer full"@,
            ),
            ReadDelimitedError::EofNoData => io_error(
                IoErrorKind::NotFound,
                "eof with no data read"@,
            ),
            ReadDelimitedError::EofBeforeDelim => io_error(
                IoErrorKind::UnexpectedEof,
                "eof before delim read"@,
            ),
        }
    }

    /// Makes the error of input and output that stands for this one.
    pub fn to_io_error(self) -> (r: std::io::Error)
        ensures
            r == self.io_error(),
    {
        match self {
            ReadDelimitedError::BufferFull => invalid_data("end of buffer full"),
            ReadDelimitedError::EofNoData => not_found("eof with no data read"),
            ReadDelimitedError::EofBeforeDelim => unexpected_eof("eof before delim read"),
        }
    }
}

} // verus!
