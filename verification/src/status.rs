//! Response statuses and the errors of request handling.

use vstd::prelude::*;

verus! {

/// The status of a response.
#[derive(Debug)]
pub enum HttpStatus {
    Continue100,
    Ok200,
    Created201,
    BadRequest400,
    NotFound404,
    MethodNotAllowed405,
    LengthRequired411,
    PayloadTooLarge413,
    UriTooLong414,
    RequestHeaderFieldsTooLarge431,
    /// Carries a text that says what went wrong.  The text is not sent.
    InternalServerError500(String),
}

impl Clone for HttpStatus {
    fn clone(&self) -> (r: HttpStatus)
        ensures
            r == *self,
    {
        match self {
            HttpStatus::Continue100 => HttpStatus::Continue100,
            HttpStatus::Ok200 => HttpStatus::Ok200,
            HttpStatus::Created201 => HttpStatus::Created201,
            HttpStatus::BadRequest400 => HttpStatus::BadRequest400,
            HttpStatus::NotFound404 => HttpStatus::NotFound404,
            HttpStatus::MethodNotAllowed405 => HttpStatus::MethodNotAllowed405,
            HttpStatus::LengthRequired411 => HttpStatus::LengthRequired411,
            HttpStatus::PayloadTooLarge413 => HttpStatus::PayloadTooLarge413,
            HttpStatus::UriTooLong414 => HttpStatus::UriTooLong414,
            HttpStatus::RequestHeaderFieldsTooLarge431 =>
                HttpStatus::RequestHeaderFieldsTooLarge431,
            HttpStatus::InternalServerError500(text) => HttpStatus::InternalServerError500(
                text.clone(),
            ),
        }
    }
}

impl HttpStatus {
    /// The status line of the status: `HTTP/1.1`, the code, the reason and a
    /// line end.
    pub open spec fn line(self) -> Seq<char> {
        match self {
            HttpStatus::Continue100 => "HTTP/1.1 100 Continue\r\n"@,
            HttpStatus::Ok200 => "HTTP/1.1 200 OK\r\n"@,
            HttpStatus::Created201 => "HTTP/1.1 201 Created\r\n"@,
            HttpStatus::BadRequest400 => "HTTP/1.1 400 Bad Request\r\n"@,
            HttpStatus::NotFound404 => "HTTP/1.1 404 Not Found\r\n"@,
            HttpStatus::MethodNotAllowed405 => "HTTP/1.1 405 Method Not Allowed\r\n"@,
            HttpStatus::LengthRequired411 => "HTTP/1.1 411 Length Required\r\n"@,
            HttpStatus::PayloadTooLarge413 => "HTTP/1.1 413 Payload Too Large\r\n"@,
            HttpStatus::UriTooLong414 => "HTTP/1.1 414 URI Too Long\r\n"@,
            HttpStatus::RequestHeaderFieldsTooLarge431 =>
                "HTTP/1.1 431 Request Header Fields Too Large\r\n"@,
            HttpStatus::InternalServerError500(_) => "HTTP/1.1 500 Internal Server Error\r\n"@,
        }
    }

    /// Returns the status line.
    pub fn as_line(&self) -> (r: &'static str)
        ensures
            r@ == self.line(),
    {
        match self {
            HttpStatus::Continue100 => "HTTP/1.1 100 Continue\r\n",
            HttpStatus::Ok200 => "HTTP/1.1 200 OK\r\n",
            HttpStatus::Created201 => "HTTP/1.1 201 Created\r\n",
            HttpStatus::BadRequest400 => "HTTP/1.1 400 Bad Request\r\n",
            HttpStatus::NotFound404 => "HTTP/1.1 404 Not Found\r\n",
            HttpStatus::MethodNotAllowed405 => "HTTP/1.1 405 Method Not Allowed\r\n",
            HttpStatus::LengthRequired411 => "HTTP/1.1 411 Length Required\r\n",
            HttpStatus::PayloadTooLarge413 => "HTTP/1.1 413 Payload Too Large\r\n",
            HttpStatus::UriTooLong414 => "HTTP/1.1 414 URI Too Long\r\n",
            HttpStatus::RequestHeaderFieldsTooLarge431 =>
                "HTTP/1.1 431 Request Header Fields Too Large\r\n",
            HttpStatus::InternalServerError500(_) => "HTTP/1.1 500 Internal Server Error\r\n",
        }
    }
}

/// What can be wrong with a request.
#[derive(Debug, Clone, Copy, PartialEq, Eq)]
pub enum HttpCallerError {
    RequestLineMissing,
    RequestLineInvalid,
    MethodInvalid,
    MethodTooLong,
    PathInvalid,
    PathTooLong,
    HeaderLineInvalid,
    HeaderValueTooLong,
    ExpectHeaderInvalid,
    TransferEncodingHeaderInvalid,
    ContentLengthHeaderInvalid,
    ContentLengthHeaderDuplicate,
    TooManyExtraHeaders,
}

impl HttpCallerError {
    /// The status that answers a request with this error.
    pub open spec fn status_of(self) -> HttpStatus {
        match self {
            HttpCallerError::RequestLineMissing => HttpStatus::BadRequest400,
            HttpCallerError::RequestLineInvalid => HttpStatus::BadRequest400,
            HttpCallerError::MethodInvalid => HttpStatus::MethodNotAllowed405,
            HttpCallerError::MethodTooLong => HttpStatus::MethodNotAllowed405,
            HttpCallerError::PathInvalid => HttpStatus::NotFound404,
            HttpCallerError::PathTooLong => HttpStatus::UriTooLong414,
            HttpCallerError::HeaderLineInvalid => HttpStatus::BadRequest400,
            HttpCallerError::HeaderValueTooLong => HttpStatus::RequestHeaderFieldsTooLarge431,
            HttpCallerError::ExpectHeaderInvalid => HttpStatus::BadRequest400,
            HttpCallerError::TransferEncodingHeaderInvalid => HttpStatus::BadRequest400,
            HttpCallerError::ContentLengthHeaderInvalid => HttpStatus::BadRequest400,
            HttpCallerError::ContentLengthHeaderDuplicate => HttpStatus::BadRequest400,
            HttpCallerError::TooManyExtraHeaders => HttpStatus::RequestHeaderFieldsTooLarge431,
        }
    }

    /// Returns the status that answers a request with this error.
    pub fn status(&self) -> (r: HttpStatus)
        ensures
            r == self.status_of(),
    {
        match self {
            HttpCallerError::RequestLineMissing => HttpStatus::BadRequest400,
            HttpCallerError::RequestLineInvalid => HttpStatus::BadRequest400,
            HttpCallerError::MethodInvalid => HttpStatus::MethodNotAllowed405,
            HttpCallerError::MethodTooLong => HttpStatus::MethodNotAllowed405,
            HttpCallerError::PathInvalid => HttpStatus::NotFound404,
            HttpCallerError::PathTooLong => HttpStatus::UriTooLong414,
            HttpCallerError::HeaderLineInvalid => HttpStatus::BadRequest400,
            HttpCallerError::HeaderValueTooLong => HttpStatus::RequestHeaderFieldsTooLarge431,
            HttpCallerError::ExpectHeaderInvalid => HttpStatus::BadRequest400,
            HttpCallerError::TransferEncodingHeaderInvalid => HttpStatus::BadRequest400,
            HttpCallerError::ContentLengthHeaderInvalid => HttpStatus::BadRequest400,
            HttpCallerError::ContentLengthHeaderDuplicate => HttpStatus::BadRequest400,
            HttpCallerError::TooManyExtraHeaders => HttpStatus::RequestHeaderFieldsTooLarge431,
        }
    }
}

/// Why handling a request failed.
#[derive(Debug)]
pub enum HttpError {
    /// Reading or writing failed.
    IoError(std::io::Error),
    /// The request is malformed or too large.
    ParseError(HttpCallerError),
    /// The request cannot be processed; the status says why.
    ProcessingError(HttpStatus),
}

impl HttpError {
    /// Wraps an error of reading or writing.
    pub fn from_io_err(e: std::io::Error) -> (r: HttpError)
        ensures
            r == HttpError::IoError(e),
    {
        HttpError::IoError(e)
    }
}

} // verus!
