//! A small HTTP/1.1 wire-protocol engine built on a fixed-capacity byte buffer.
//!
//! The functions of this crate decide and compute; they neither read from a
//! socket nor write to one.  A caller reads what `FixedBuf` and
//! `HttpReaderWriter` ask for, writes what they hand out, and reports back what
//! happened.

pub mod async_readable;
pub mod bounded;
pub mod buffer;
pub mod buffer_view;
pub mod chunked_input;
pub mod escape;
pub mod fixed_buffer;
pub mod header;
pub mod io_error;
pub mod method;
pub mod no_borrow_cursor;
pub mod number;
pub mod percent;
pub mod reader_writer;
pub mod request;
pub mod request_line;
pub mod response;
pub mod search;
pub mod split_iterate;
pub mod status;
pub mod text;
pub mod whitespace;

pub use crate::escape::escape_ascii;
pub use crate::header::{
    header_receivers_to_string, headers_to_string, is_non_pii_header, Header, HeaderReceiver,
};
pub use crate::method::HttpMethod;
pub use crate::reader_writer::HttpReaderWriter;
pub use crate::request::HttpRequest;
pub use crate::request_line::HttpRequestLine;
pub use crate::status::{HttpCallerError, HttpError, HttpStatus};
