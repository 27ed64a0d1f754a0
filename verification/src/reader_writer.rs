//! The state of one connection: the request that was read, how much of its
//! body is still to be read, and how much of the response is still to be sent.
//! The functions here decide; reading from the input and writing to the output
//! is left to the caller, who reports back what happened.

use vstd::prelude::*;
use vstd::string::{StringExecFns, StringSliceAdditionalSpecFns};
use vstd::utf8::{encode_utf8, is_ascii_chars_encode_utf8};
use crate::bounded::RequestPath;
use crate::buffer_view::{empty_buffer, BufferView};
use crate::fixed_buffer::{FixedBuf, BUFFER_LEN};
use crate::header::{receiver_views, Header, HeaderReceiver};
use crate::io_error::{invalid_input, io_error, IoErrorKind};
use crate::method::HttpMethod;
use crate::request::{extra_after_head, parsed_head, HttpRequest, RequestHead};
use crate::response::{
    buffer_full_text, compose_head, first_rejected, head_start, header_views,
    lemma_status_line_is_short, rejected_text, response_head, status_line,
};
use crate::status::{HttpError, HttpStatus};

verus! {

/// The end of a request head: an empty line behind a line.
pub open spec fn head_end() -> Seq<u8> {
    seq![0x0du8, 0x0au8, 0x0du8, 0x0au8]
}

/// The bytes of the interim response `100 Continue`.
pub open spec fn continue_line() -> Seq<u8> {
    "HTTP/1.1 100 Continue\r\n".spec_bytes()
}

/// Whether the interim response `100 Continue` is owed to the client.
#[derive(Clone, Copy, Debug, PartialEq, Eq, Structural)]
pub enum Expect100 {
    /// The client did not ask for it.
    NotNeeded,
    /// The client asked for it, and this many of its bytes are still to be
    /// written.  With none left, the output is still to be flushed.
    Pending(usize),
    /// It was written and flushed.
    Sent,
}

/// What the caller of `read_request` has to do next.
#[derive(Clone, Copy, Debug, PartialEq, Eq, Structural)]
pub enum ReadProgress {
    /// The request was read.
    Complete,
    /// The head is not complete: read more input into `input_window`, report
    /// it with `read_request_input`, and call `read_request` again.
    NeedInput,
}

/// What the caller of `read_body` has to do next.
#[derive(Clone, Copy, Debug, PartialEq, Eq, Structural)]
pub enum BodyRead {
    /// Write `continue_bytes` to the output, report it with
    /// `continue_written`, and call again.
    SendContinue,
    /// Flush the output, report it with `continue_flushed`, and call again.
    FlushContinue,
    /// Nothing is to be read: the body has ended, or there is no room.
    Eof,
    /// This many bytes of the body were moved from the buffer to the front
    /// of the destination.
    Buffered(usize),
    /// Read from the input into the front of the destination, at most this
    /// many bytes, and report it with `body_read_input`.
    FromInput(usize),
}

/// The mathematical state of an `HttpReaderWriter`.
pub struct HttpReaderWriterView {
    pub buffer: BufferView,
    pub method: Option<HttpMethod>,
    pub path: Seq<u8>,
    pub expect_100: Expect100,
    pub content_length: u64,
    pub unread_content_length: u64,
    pub chunked: bool,
    pub status: Option<HttpStatus>,
    pub unsent_content_length: Option<u64>,
    pub bytes_written: u64,
}

impl HttpReaderWriterView {
    /// Part of the body of the last request is still to be read.
    pub open spec fn body_unread(self) -> bool {
        self.unread_content_length > 0
    }

    /// Part of the body of the last response is still to be sent.
    pub open spec fn response_unsent(self) -> bool {
        self.unsent_content_length matches Some(n) && n > 0
    }

    /// The state with nothing known of a request or a response.  The buffer
    /// is kept.
    pub open spec fn reset(self) -> HttpReaderWriterView {
        HttpReaderWriterView {
            buffer: self.buffer,
            method: None,
            path: Seq::empty(),
            expect_100: Expect100::NotNeeded,
            content_length: 0,
            unread_content_length: 0,
            chunked: false,
            status: None,
            unsent_content_length: None,
            bytes_written: 0,
        }
    }

    /// The state with another buffer.
    pub open spec fn with_buffer(self, buffer: BufferView) -> HttpReaderWriterView {
        HttpReaderWriterView { buffer, ..self }
    }

    /// Whether this is the state after the request that `head` describes was
    /// read into the state `before`.  The whole body is still to be read, and
    /// `100 Continue` is owed if the request asks for it.
    pub open spec fn holds_request(self, before: HttpReaderWriterView, head: RequestHead) -> bool {
        &&& self.buffer == before.buffer
        &&& self.method matches Some(m) && m.is_named(head.method)
        &&& self.path == head.path
        &&& self.expect_100 == if head.expecting_100_continue {
            Expect100::Pending(continue_line().len() as usize)
        } else {
            Expect100::NotNeeded
        }
        &&& self.content_length == head.content_length
        &&& self.unread_content_length == head.content_length
        &&& self.chunked == head.chunked
        &&& self.status == before.status
        &&& self.unsent_content_length == before.unsent_content_length
        &&& self.bytes_written == before.bytes_written
    }

    /// The bytes of `100 Continue` that are still to be written.
    pub open spec fn continue_bytes(self) -> Seq<u8> {
        match self.expect_100 {
            Expect100::Pending(n) => if n <= continue_line().len() {
                continue_line().subrange(continue_line().len() - n, continue_line().len() as int)
            } else {
                continue_line()
            },
            _ => Seq::empty(),
        }
    }

    /// Whether `num_bytes` bytes of a response body may be written now: once
    /// a response has announced a length, no more than what is left of it.
    pub open spec fn accepts_body(self, num_bytes: int) -> bool {
        !(self.unsent_content_length matches Some(unsent) && unsent < num_bytes)
    }

    /// The state after `num_bytes` bytes of a response body were written.
    pub open spec fn body_written(self, num_bytes: int) -> HttpReaderWriterView {
        HttpReaderWriterView {
            bytes_written: (self.bytes_written + num_bytes) as u64,
            unsent_content_length: match self.unsent_content_length {
                Some(unsent) => Some((unsent - num_bytes) as u64),
                None => None,
            },
            ..self
        }
    }

    /// The state after writes of `sizes` bytes of a response body, one after
    /// the other, or `None` if one of them is not accepted.
    pub open spec fn after_writes(self, sizes: Seq<nat>) -> Option<HttpReaderWriterView>
        decreases sizes.len(),
    {
        if sizes.len() == 0 {
            Some(self)
        } else if !self.accepts_body(sizes[0] as int) {
            None
        } else {
            self.body_written(sizes[0] as int).after_writes(sizes.drop_first())
        }
    }

    /// How many bytes of the body `read_body` hands out at most, into a
    /// destination of `room` bytes.
    pub open spec fn body_quota(self, room: int) -> int {
        if room < self.unread_content_length {
            room
        } else {
            self.unread_content_length as int
        }
    }

    /// What `read_body` tells the caller, for a destination of `room` bytes.
    pub open spec fn body_read(self, room: int) -> BodyRead {
        match self.expect_100 {
            Expect100::Pending(n) => if n > 0 {
                BodyRead::SendContinue
            } else {
                BodyRead::FlushContinue
            },
            _ => if room == 0 || self.unread_content_length == 0 {
                BodyRead::Eof
            } else if self.buffer.readable().len() > 0 {
                BodyRead::Buffered(
                    vstd::math::min(self.buffer.readable().len() as int, self.body_quota(room))
                        as usize,
                )
            } else {
                BodyRead::FromInput(self.body_quota(room) as usize)
            },
        }
    }
}

/// The state of one connection.
pub struct HttpReaderWriter {
    buffer: FixedBuf,
    method: Option<HttpMethod>,
    /// The path of the request, percent-decoded.
    pub path: RequestPath,
    expect_100: Expect100,
    content_length: u64,
    unread_content_length: u64,
    chunked: bool,
    status: Option<HttpStatus>,
    unsent_content_length: Option<u64>,
    bytes_written: u64,
}

impl View for HttpReaderWriter {
    type V = HttpReaderWriterView;

    closed spec fn view(&self) -> HttpReaderWriterView {
        HttpReaderWriterView {
            buffer: self.buffer@,
            method: self.method,
            path: self.path@,
            expect_100: self.expect_100,
            content_length: self.content_length,
            unread_content_length: self.unread_content_length,
            chunked: self.chunked,
            status: self.status,
            unsent_content_length: self.unsent_content_length,
            bytes_written: self.bytes_written,
        }
    }
}

impl HttpReaderWriter {
    /// Makes the state of a new connection: no request was read, and the
    /// response to it, of no bytes, counts as sent.
    pub fn new() -> (r: HttpReaderWriter)
        ensures
            r@ == (HttpReaderWriterView {
                buffer: empty_buffer(BUFFER_LEN as nat),
                method: None,
                path: Seq::empty(),
                expect_100: Expect100::NotNeeded,
                content_length: 0,
                unread_content_length: 0,
                chunked: false,
                status: None,
                unsent_content_length: Some(0u64),
                bytes_written: 0,
            }),
            r@.buffer.wf(),
            r@.buffer.readable().len() == 0,
    {
        let r = HttpReaderWriter {
            buffer: FixedBuf::new(),
            method: None,
            path: RequestPath::new(),
            expect_100: Expect100::NotNeeded,
            content_length: 0,
            unread_content_length: 0,
            chunked: false,
            status: None,
            unsent_content_length: Some(0),
            bytes_written: 0,
        };
        assert(r@.buffer.readable() =~= Seq::<u8>::empty());
        r
    }

    /// Forgets the request and the response.  What is buffered of the input
    /// stays.
    pub fn reset(&mut self)
        ensures
            final(self)@ == old(self)@.reset(),
    {
        self.method = None;
        self.path.clear();
        self.expect_100 = Expect100::NotNeeded;
        self.content_length = 0;
        self.unread_content_length = 0;
        self.chunked = false;
        self.status = None;
        self.unsent_content_length = None;
        self.bytes_written = 0;
    }

    /// Whether the request has a body: it has one if it is chunked or
    /// announces a length above zero.
    pub fn has_body(&self) -> (r: bool)
        ensures
            r == (self@.chunked || self@.content_length > 0),
    {
        self.chunked || self.content_length > 0
    }

    /// The length of the body that the request announces.
    pub fn content_length(&self) -> (r: u64)
        ensures
            r == self@.content_length,
    {
        self.content_length
    }

    /// The length of the body as a `usize`, or `PayloadTooLarge413` if it is
    /// no `usize`.
    pub fn content_length_usize(&self) -> (r: Result<usize, HttpError>)
        ensures
            self@.content_length <= usize::MAX ==> r == Ok::<usize, HttpError>(
                self@.content_length as usize,
            ),
            self@.content_length > usize::MAX ==> r == Err::<usize, HttpError>(
                HttpError::ProcessingError(HttpStatus::PayloadTooLarge413),
            ),
    {
        if self.content_length <= usize::MAX as u64 {
            Ok(self.content_length as usize)
        } else {
            Err(HttpError::ProcessingError(HttpStatus::PayloadTooLarge413))
        }
    }

    /// Whether a request was read, so that there is a method to ask for.
    pub fn has_method(&self) -> (r: bool)
        ensures
            r == self@.method is Some,
    {
        self.method.is_some()
    }

    /// The method of the request that was read.
    pub fn method(&self) -> (r: HttpMethod)
        requires
            self@.method is Some,
        ensures
            Some(r) == self@.method,
    {
        match &self.method {
            Some(m) => m.clone(),
            None => vstd::pervasive::unreached(),
        }
    }

    /// The status of the response, once its head was sent.
    pub fn status(&self) -> (r: Option<HttpStatus>)
        ensures
            r == self@.status,
    {
        match &self.status {
            Some(s) => Some(s.clone()),
            None => None,
        }
    }

    /// The number of bytes of the response that were written.
    pub fn bytes_written(&self) -> (r: u64)
        ensures
            r == self@.bytes_written,
    {
        self.bytes_written
    }

    /// The number of bytes of the request body that are still to be read.
    pub fn unread_content_length(&self) -> (r: u64)
        ensures
            r == self@.unread_content_length,
    {
        self.unread_content_length
    }

    /// The number of bytes of the response body that are still to be sent,
    /// where a response was started.
    pub fn unsent_content_length(&self) -> (r: Option<u64>)
        ensures
            r == self@.unsent_content_length,
    {
        self.unsent_content_length
    }

    /// Whether the body of the request is chunked.
    pub fn chunked(&self) -> (r: bool)
        ensures
            r == self@.chunked,
    {
        self.chunked
    }

    /// Whether `100 Continue` is owed to the client.
    pub fn expect_100(&self) -> (r: Expect100)
        ensures
            r == self@.expect_100,
    {
        self.expect_100
    }

    /// Returns the path of the request that was read.  It was percent-decoded
    /// when the request was read, so this cannot fail.
    pub fn decode_path(&self) -> (r: Result<String, HttpError>)
        requires
            self@.path.len() > 0,
        ensures
            r matches Ok(s) && encode_utf8(s@) == self@.path,
    {
        Ok(String::from_str(self.path.as_str()))
    }

    /// Reads a request from what is buffered of the input.  Refuses to, with
    /// `InternalServerError500`, while part of the last request's body is
    /// unread or part of the last response's body is unsent.  Else forgets the
    /// last request and response and searches the buffer for the end of a
    /// head.  If it is there, the head is consumed and parsed, and what follows
    /// it stays buffered.  If it is not there, the caller has to supply more
    /// input, unless the buffer is full: that is an error.
    pub fn read_request<'b>(&mut self, extra_headers: &mut [HeaderReceiver<'b>]) -> (r: Result<
        ReadProgress,
        HttpError,
    >)
        ensures
            final(extra_headers)@.len() == old(extra_headers)@.len(),
            forall|i: int|
                0 <= i < old(extra_headers)@.len() ==> (#[trigger] final(extra_headers)@[i]).name
                    == old(extra_headers)@[i].name,
            old(self)@.body_unread() ==> ({
                &&& final(self)@ == old(self)@
                &&& final(extra_headers)@ == old(extra_headers)@
                &&& r matches Err(
                    HttpError::ProcessingError(HttpStatus::InternalServerError500(text)),
                ) && text@ == "previous request body not completely read"@
            }),
            !old(self)@.body_unread() && old(self)@.response_unsent() ==> ({
                &&& final(self)@ == old(self)@
                &&& final(extra_headers)@ == old(extra_headers)@
                &&& r matches Err(
                    HttpError::ProcessingError(HttpStatus::InternalServerError500(text)),
                ) && text@ == "previous response body not completely sent"@
            }),
            !old(self)@.body_unread() && !old(self)@.response_unsent() ==> ({
                let shifted = old(self)@.buffer.shift();
                let start = old(self)@.reset().with_buffer(shifted.read_delimited(head_end()));
                &&& final(self)@.buffer.wf()
                &&& final(self)@.buffer.mem.len() == BUFFER_LEN
                &&& match shifted.read_delimited_result(head_end()) {
                    Err(e) => {
                        &&& final(self)@ == start
                        &&& final(extra_headers)@ == old(extra_headers)@
                        &&& r == Err::<ReadProgress, HttpError>(HttpError::IoError(e.io_error()))
                    },
                    Ok(None) => {
                        &&& final(self)@ == start
                        &&& final(extra_headers)@ == old(extra_headers)@
                        &&& r == Ok::<ReadProgress, HttpError>(ReadProgress::NeedInput)
                        &&& final(self)@.buffer.write_index < BUFFER_LEN
                    },
                    Ok(Some(head)) => {
                        &&& receiver_views(final(extra_headers)@) == extra_after_head(
                            head,
                            receiver_views(old(extra_headers)@),
                        )
                        &&& match parsed_head(head, receiver_views(old(extra_headers)@)) {
                            Err(e) => {
                                &&& final(self)@ == start
                                &&& r == Err::<ReadProgress, HttpError>(HttpError::ParseError(e))
                            },
                            Ok(said) => {
                                &&& final(self)@.holds_request(start, said)
                                &&& r == Ok::<ReadProgress, HttpError>(ReadProgress::Complete)
                            },
                        }
                    },
                }
            }),
    {
        if self.unread_content_length > 0 {
            return Err(
                HttpError::ProcessingError(
                    HttpStatus::InternalServerError500(
                        String::from_str("previous request body not completely read"),
                    ),
                ),
            );
        }
        if let Some(unsent) = self.unsent_content_length {
            if unsent > 0 {
                return Err(
                    HttpError::ProcessingError(
                        HttpStatus::InternalServerError500(
                            String::from_str("previous response body not completely sent"),
                        ),
                    ),
                );
            }
        }
        self.buffer.shift();
        self.reset();
        let end: [u8; 4] = [0x0du8, 0x0au8, 0x0du8, 0x0au8];
        assert(end@ =~= head_end());
        let parsed = match self.buffer.read_delimited(end.as_slice()) {
            Err(e) => {
                return Err(HttpError::IoError(e.to_io_error()));
            },
            Ok(None) => {
                return Ok(ReadProgress::NeedInput);
            },
            Ok(Some(head)) => HttpRequest::parse(head, extra_headers),
        };
        let request = match parsed {
            Ok(request) => request,
            Err(e) => {
                return Err(e);
            },
        };
        self.method = Some(request.method);
        self.path = request.path;
        if request.expecting_100_continue {
            self.expect_100 = Expect100::Pending(HttpStatus::Continue100.as_line().len());
        }
        self.content_length = request.content_length;
        self.unread_content_length = request.content_length;
        self.chunked = request.chunked;
        Ok(ReadProgress::Complete)
    }

    /// The part of the buffer into which more input for `read_request` is to
    /// be read, or `None` if the end of the buffer is full.
    pub fn input_window(&mut self) -> (r: Option<&mut [u8]>)
        ensures
            old(self)@.buffer.wf(),
            old(self)@.buffer.mem.len() == BUFFER_LEN,
            r is None <==> old(self)@.buffer.write_index >= BUFFER_LEN,
            r is None ==> final(self)@ == old(self)@,
            r is Some ==> {
                let before = old(self)@.buffer;
                &&& r.unwrap()@ == before.writable()
                &&& final(self)@ == old(self)@.with_buffer(final(self)@.buffer)
                &&& final(self)@.buffer == (BufferView {
                    mem: before.mem.subrange(0, before.write_index) + final(r.unwrap())@,
                    read_index: before.read_index,
                    write_index: before.write_index,
                })
            },
    {
        self.buffer.writable()
    }

    /// Accounts for what a read into `input_window` returned:
    /// `num_bytes_read` bytes are now buffered.  Zero bytes mean that the input
    /// has ended before the head was complete: that is an error, of the kind
    /// `NotFound` if nothing of a head was read, else `UnexpectedEof`.
    pub fn read_request_input(&mut self, num_bytes_read: usize) -> (r: Result<(), HttpError>)
        requires
            old(self)@.buffer.write_index + num_bytes_read <= BUFFER_LEN,
        ensures
            num_bytes_read > 0 ==> r is Ok && final(self)@ == old(self)@.with_buffer(
                old(self)@.buffer.wrote(num_bytes_read as int),
            ),
            num_bytes_read == 0 ==> final(self)@ == old(self)@ && r == Err::<(), HttpError>(
                HttpError::IoError(old(self)@.buffer.eof_error().io_error()),
            ),
            final(self)@.buffer.wf(),
            final(self)@.buffer.mem.len() == BUFFER_LEN,
    {
        match self.buffer.read_delimited_input(num_bytes_read) {
            Ok(()) => Ok(()),
            Err(e) => Err(HttpError::IoError(e.to_io_error())),
        }
    }

    /// Returns the bytes of `100 Continue` that are still to be written to
    /// the output.
    pub fn continue_bytes(&self) -> (r: &'static [u8])
        ensures
            r@ == self@.continue_bytes(),
    {
        let line: &'static [u8] = HttpStatus::Continue100.as_line().as_bytes();
        match self.expect_100 {
            Expect100::Pending(n) => if n <= line.len() {
                vstd::slice::slice_subrange(line, line.len() - n, line.len())
            } else {
                assert(line@ =~= line@.subrange(0, line@.len() as int));
                line
            },
            _ => {
                let r = vstd::slice::slice_subrange(line, 0, 0);
                assert(r@ =~= Seq::<u8>::empty());
                r
            },
        }
    }

    /// Accounts for `num_bytes` bytes of `continue_bytes` that were written
    /// to the output.
    pub fn continue_written(&mut self, num_bytes: usize)
        requires
            num_bytes <= old(self)@.continue_bytes().len(),
        ensures
            final(self)@ == (HttpReaderWriterView {
                expect_100: match old(self)@.expect_100 {
                    Expect100::Pending(n) => Expect100::Pending(
                        (old(self)@.continue_bytes().len() - num_bytes) as usize,
                    ),
                    other => other,
                },
                ..old(self)@
            }),
            final(self)@.continue_bytes() == old(self)@.continue_bytes().subrange(
                num_bytes as int,
                old(self)@.continue_bytes().len() as int,
            ),
    {
        let left: usize = self.continue_bytes().len();
        if let Expect100::Pending(_) = self.expect_100 {
            self.expect_100 = Expect100::Pending(left - num_bytes);
        }
        assert(self@.continue_bytes() =~= old(self)@.continue_bytes().subrange(
            num_bytes as int,
            old(self)@.continue_bytes().len() as int,
        ));
    }

    /// Accounts for a flush of the output behind `100 Continue`: once all
    /// its bytes were written it counts as sent.
    pub fn continue_flushed(&mut self)
        ensures
            final(self)@ == (HttpReaderWriterView {
                expect_100: if old(self)@.expect_100 == Expect100::Pending(0) {
                    Expect100::Sent
                } else {
                    old(self)@.expect_100
                },
                ..old(self)@
            }),
    {
        if let Expect100::Pending(n) = self.expect_100 {
            if n == 0 {
                self.expect_100 = Expect100::Sent;
            }
        }
    }

    /// One step of reading the body of the request into `dest`.  First
    /// `100 Continue` has to go out, if it is owed.  Then the body is served:
    /// from what the buffer holds behind the head, and, once that is used up,
    /// from the input.  Never more is handed out than the request announced,
    /// and nothing once all of it was read.
    pub fn read_body(&mut self, dest: &mut [u8]) -> (r: BodyRead)
        ensures
            r == old(self)@.body_read(old(dest)@.len() as int),
            final(dest)@.len() == old(dest)@.len(),
            match r {
                BodyRead::Buffered(n) => {
                    &&& 0 < n <= old(dest)@.len()
                    &&& n <= old(self)@.unread_content_length
                    &&& n <= old(self)@.buffer.readable().len()
                    &&& final(dest)@ == old(self)@.buffer.readable().subrange(0, n as int) + old(
                        dest,
                    )@.subrange(n as int, old(dest)@.len() as int)
                    &&& final(self)@ == (HttpReaderWriterView {
                        buffer: old(self)@.buffer.consume(n as int),
                        unread_content_length: (old(self)@.unread_content_length - n) as u64,
                        ..old(self)@
                    })
                },
                BodyRead::FromInput(n) => {
                    &&& 0 < n <= old(dest)@.len()
                    &&& n <= old(self)@.unread_content_length
                    &&& final(dest)@ == old(dest)@
                    &&& final(self)@ == old(self)@
                },
                _ => final(dest)@ == old(dest)@ && final(self)@ == old(self)@,
            },
    {
        if let Expect100::Pending(n) = self.expect_100 {
            if n > 0 {
                return BodyRead::SendContinue;
            }
            return BodyRead::FlushContinue;
        }
        if dest.len() == 0 || self.unread_content_length == 0 {
            return BodyRead::Eof;
        }
        let room: usize = dest.len();
        let quota: usize = if (room as u64) < self.unread_content_length {
            room
        } else {
            self.unread_content_length as usize
        };
        let readable = self.buffer.readable();
        if readable.len() == 0 {
            return BodyRead::FromInput(quota);
        }
        let num_bytes: usize = if readable.len() < quota {
            readable.len()
        } else {
            quota
        };
        let mut k: usize = 0;
        while k < num_bytes
            invariant
                k <= num_bytes,
                num_bytes <= readable@.len(),
                num_bytes <= dest@.len(),
                dest@.len() == old(dest)@.len(),
                forall|m: int| 0 <= m < k ==> dest@[m] == readable@[m],
                forall|m: int| k <= m < dest@.len() ==> dest@[m] == old(dest)@[m],
            decreases num_bytes - k,
        {
            dest[k] = readable[k];
            k = k + 1;
        }
        assert(dest@ =~= readable@.subrange(0, num_bytes as int) + old(dest)@.subrange(
            num_bytes as int,
            old(dest)@.len() as int,
        ));
        self.buffer.consume(num_bytes);
        self.unread_content_length = self.unread_content_length - num_bytes as u64;
        BodyRead::Buffered(num_bytes)
    }

    /// Accounts for `num_bytes` bytes of the body that were read from the
    /// input, as `read_body` asked.
    pub fn body_read_input(&mut self, num_bytes: usize)
        requires
            num_bytes <= old(self)@.unread_content_length,
        ensures
            final(self)@ == (HttpReaderWriterView {
                unread_content_length: (old(self)@.unread_content_length - num_bytes) as u64,
                ..old(self)@
            }),
    {
        self.unread_content_length = self.unread_content_length - num_bytes as u64;
    }

    /// Tells whether `num_bytes` bytes of a response body may be written now.
    /// Once a response has announced a length, no more than what is left of it
    /// may be written.
    pub fn write_body(&self, num_bytes: usize) -> (r: Result<(), std::io::Error>)
        ensures
            r is Ok <==> self@.accepts_body(num_bytes as int),
            r is Err ==> r == Err::<(), std::io::Error>(
                io_error(
                    IoErrorKind::InvalidInput,
                    "cannot write more than content-length bytes"@,
                ),
            ),
    {
        if let Some(unsent) = self.unsent_content_length {
            if unsent < num_bytes as u64 {
                return Err(invalid_input("cannot write more than content-length bytes"));
            }
        }
        Ok(())
    }

    /// Accounts for `num_bytes` bytes of the response body that were written
    /// to the output.  They must not be more than what is left of the announced
    /// length, where one was announced.
    pub fn body_written(&mut self, num_bytes: usize)
        requires
            old(self)@.bytes_written + num_bytes <= u64::MAX,
            old(self)@.accepts_body(num_bytes as int),
        ensures
            final(self)@ == old(self)@.body_written(num_bytes as int),
    {
        self.bytes_written = self.bytes_written + num_bytes as u64;
        if let Some(unsent) = self.unsent_content_length {
            self.unsent_content_length = Some(unsent - num_bytes as u64);
        }
    }

    /// Starts a response without body and without further headers: returns
    /// the buffer that holds its head, which is to be written to the output.
    /// The response announces a body of no bytes.
    pub fn send_simple(&mut self, status: &HttpStatus) -> (buf: FixedBuf)
        ensures
            final(self)@ == (HttpReaderWriterView {
                unsent_content_length: Some(0u64),
                ..old(self)@
            }),
            buf@ == empty_buffer(BUFFER_LEN as nat).write(
                status_line(*status) + "content-length: 0\r\n\r\n".spec_bytes(),
            ),
            buf@.wf(),
            buf@.mem.len() == BUFFER_LEN,
    {
        proof {
            lemma_status_line_is_short(*status);
            reveal_strlit("content-length: 0\r\n\r\n");
            is_ascii_chars_encode_utf8("content-length: 0\r\n\r\n"@);
        }
        let mut buf = FixedBuf::new();
        let ghost v0 = buf@;
        buf.append(status.as_line());
        buf.append("content-length: 0\r\n\r\n");
        self.unsent_content_length = Some(0);
        assert(buf@.mem =~= v0.write(
            status_line(*status) + "content-length: 0\r\n\r\n".spec_bytes(),
        ).mem);
        buf
    }

    /// Starts a response without body: returns the buffer that holds its
    /// head, which is to be written to the output.  The response announces a
    /// body of no bytes.  Fails with `InternalServerError500` if one of
    /// `extra_headers` is `transfer-encoding`, `content-length`, `content-type`
    /// or `content-encoding`, or if the head does not fit into the buffer.
    pub fn send_without_body(&mut self, status: &HttpStatus, extra_headers: &[Header]) -> (r:
        Result<FixedBuf, HttpError>)
        ensures
            final(self)@ == (HttpReaderWriterView {
                unsent_content_length: Some(0u64),
                ..old(self)@
            }),
            match first_rejected(header_views(extra_headers@)) {
                Some(i) => r matches Err(
                    HttpError::ProcessingError(HttpStatus::InternalServerError500(text)),
                ) && text@ == rejected_text(extra_headers@[i]),
                None => match response_head(
                    head_start(*status, false, 0),
                    header_views(extra_headers@),
                ) {
                    Some(v) => r matches Ok(buf) && buf@ == v && buf@.wf() && buf@.mem.len()
                        == BUFFER_LEN,
                    None => r matches Err(
                        HttpError::ProcessingError(HttpStatus::InternalServerError500(text)),
                    ) && text@ == buffer_full_text(extra_headers@),
                },
            },
    {
        self.unsent_content_length = Some(0);
        compose_head(status, false, 0, extra_headers)
    }

    /// Starts a response with the text `body`: returns the buffer that holds
    /// its head, which is to be written to the output before the body.  An
    /// empty body gives a response without body.  Fails as `send_without_body`
    /// does.
    pub fn send_text(&mut self, status: &HttpStatus, extra_headers: &[Header], body: &str) -> (r:
        Result<FixedBuf, HttpError>)
        ensures
            final(self)@ == (if body.spec_bytes().len() == 0 {
                HttpReaderWriterView { unsent_content_length: Some(0u64), ..old(self)@ }
            } else {
                old(self)@
            }),
            match first_rejected(header_views(extra_headers@)) {
                Some(i) => r matches Err(
                    HttpError::ProcessingError(HttpStatus::InternalServerError500(text)),
                ) && text@ == rejected_text(extra_headers@[i]),
                None => match response_head(
                    head_start(
                        *status,
                        body.spec_bytes().len() > 0,
                        body.spec_bytes().len() as u64,
                    ),
                    header_views(extra_headers@),
                ) {
                    Some(v) => r matches Ok(buf) && buf@ == v && buf@.wf() && buf@.mem.len()
                        == BUFFER_LEN,
                    None => r matches Err(
                        HttpError::ProcessingError(HttpStatus::InternalServerError500(text)),
                    ) && text@ == buffer_full_text(extra_headers@),
                },
            },
    {
        let len: usize = body.as_bytes().len();
        if len == 0 {
            return self.send_without_body(status, extra_headers);
        }
        compose_head(status, true, len as u64, extra_headers)
    }

    /// Starts a response whose body of `content_length` bytes the caller
    /// writes: returns the buffer that holds its head, which is to be written
    /// to the output.  From now on no more than that many bytes may be written
    /// as the body.  Fails as `send_without_body` does.
    pub fn send_with_content_length(
        &mut self,
        status: &HttpStatus,
        extra_headers: &[Header],
        content_length: u64,
    ) -> (r: Result<FixedBuf, HttpError>)
        ensures
            final(self)@ == (HttpReaderWriterView {
                unsent_content_length: Some(content_length),
                ..old(self)@
            }),
            match first_rejected(header_views(extra_headers@)) {
                Some(i) => r matches Err(
                    HttpError::ProcessingError(HttpStatus::InternalServerError500(text)),
                ) && text@ == rejected_text(extra_headers@[i]),
                None => match response_head(
                    head_start(*status, false, content_length),
                    header_views(extra_headers@),
                ) {
                    Some(v) => r matches Ok(buf) && buf@ == v && buf@.wf() && buf@.mem.len()
                        == BUFFER_LEN,
                    None => r matches Err(
                        HttpError::ProcessingError(HttpStatus::InternalServerError500(text)),
                    ) && text@ == buffer_full_text(extra_headers@),
                },
            },
    {
        self.unsent_content_length = Some(content_length);
        compose_head(status, false, content_length, extra_headers)
    }

    /// Accounts for `num_bytes` bytes of a response head, or of a text body,
    /// that were written to the output.
    pub fn sent(&mut self, num_bytes: usize)
        requires
            old(self)@.bytes_written + num_bytes <= u64::MAX,
        ensures
            final(self)@ == (HttpReaderWriterView {
                bytes_written: (old(self)@.bytes_written + num_bytes) as u64,
                ..old(self)@
            }),
    {
        self.bytes_written = self.bytes_written + num_bytes as u64;
    }

    /// Records that the head of a response with the status `status` went
    /// out.
    pub fn response_sent(&mut self, status: HttpStatus)
        ensures
            final(self)@ == (HttpReaderWriterView { status: Some(status), ..old(self)@ }),
    {
        self.status = Some(status);
    }

    /// Records that a response with the status `status` went out with its
    /// text body: nothing of it is left to send.
    pub fn text_sent(&mut self, status: HttpStatus)
        ensures
            final(self)@ == (HttpReaderWriterView {
                status: Some(status),
                unsent_content_length: Some(0u64),
                ..old(self)@
            }),
    {
        self.unsent_content_length = Some(0);
        self.status = Some(status);
    }
}

/// The sum of `sizes`.
pub open spec fn total(sizes: Seq<nat>) -> nat
    decreases sizes.len(),
{
    if sizes.len() == 0 {
        0
    } else {
        sizes[0] + total(sizes.drop_first())
    }
}

/// Content-length enforcement: once a response has announced a length,
/// writes of its body are accepted, one after the other, if and only if
/// together they do not exceed that length.  What is then left to send is the
/// length less what was written, and a new request can be read exactly when
/// nothing is left.
pub proof fn lemma_writes_stay_within_length(v: HttpReaderWriterView, sizes: Seq<nat>)
    requires
        v.unsent_content_length is Some,
    ensures
        v.after_writes(sizes) is Some <==> total(sizes) <= v.unsent_content_length.unwrap(),
        v.after_writes(sizes) matches Some(w) ==> {
            &&& w.unsent_content_length == Some(
                (v.unsent_content_length.unwrap() - total(sizes)) as u64,
            )
            &&& w.response_unsent() <==> total(sizes) < v.unsent_content_length.unwrap()
        },
    decreases sizes.len(),
{
    if sizes.len() > 0 && v.accepts_body(sizes[0] as int) {
        lemma_writes_stay_within_length(v.body_written(sizes[0] as int), sizes.drop_first());
    }
}

} // verus!
