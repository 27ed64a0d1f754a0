//! A fixed-capacity byte buffer with a read cursor and a write cursor.

use vstd::prelude::*;
use vstd::string::StringSliceAdditionalSpecFns;
use crate::buffer_view::{empty_buffer, first_len, next_read, BufferView, ReadDelimitedError};
use crate::chunked_input::ChunkedInput;
use crate::io_error::{invalid_data, io_error, IoErrorKind};
use crate::search::{find_first, first_match};

verus! {

/// The number of bytes that can be stored in a `FixedBuf`.
pub const BUFFER_LEN: usize = 4096;

/// A byte buffer that holds a few KB.  Bytes are written at the end and read
/// from the front.  It is not circular: `shift` moves the unread bytes to the
/// front to recover the space of the bytes already read.
pub struct FixedBuf {
    buf: [u8; BUFFER_LEN],
    write_index: usize,
    read_index: usize,
}

impl View for FixedBuf {
    type V = BufferView;

    closed spec fn view(&self) -> BufferView {
        BufferView {
            mem: self.buf@,
            read_index: self.read_index as int,
            write_index: self.write_index as int,
        }
    }
}

impl FixedBuf {
    #[verifier::type_invariant]
    spec fn inv(self) -> bool {
        self.read_index <= self.write_index <= BUFFER_LEN
    }

    /// Makes a new empty buffer whose memory is all zero.
    pub fn new() -> (r: FixedBuf)
        ensures
            r@ == empty_buffer(BUFFER_LEN as nat),
            r@.wf(),
            r@.mem.len() == BUFFER_LEN,
    {
        let r = FixedBuf { buf: [0u8; BUFFER_LEN], write_index: 0, read_index: 0 };
        assert(r@.mem =~= empty_buffer(BUFFER_LEN as nat).mem);
        r
    }

    /// Makes a new empty buffer that uses the provided memory.
    pub fn new_with_mem(buf: [u8; BUFFER_LEN]) -> (r: FixedBuf)
        ensures
            r@ == (BufferView { mem: buf@, read_index: 0, write_index: 0 }),
            r@.wf(),
            r@.mem.len() == BUFFER_LEN,
    {
        FixedBuf { buf, write_index: 0, read_index: 0 }
    }

    /// Drops the buffer and returns its memory.
    pub fn internal_mem(self) -> (r: [u8; BUFFER_LEN])
        ensures
            r@ == self@.mem,
    {
        self.buf
    }

    /// Copies `data` behind the unread bytes and commits it.
    fn put(&mut self, data: &[u8])
        requires
            old(self)@.can_write(data@.len() as int),
        ensures
            final(self)@ == old(self)@.write(data@),
            final(self)@.wf(),
            final(self)@.mem.len() == BUFFER_LEN,
    {
        proof {
            use_type_invariant(&*self);
        }
        let n: usize = data.len();
        let start: usize = self.write_index;
        let mut k: usize = 0;
        while k < n
            invariant
                n == data@.len(),
                start + n <= BUFFER_LEN,
                k <= n,
                self.write_index == start,
                self.read_index == old(self).read_index,
                self.read_index <= start,
                forall|m: int| 0 <= m < k ==> self.buf@[start + m] == data@[m],
                forall|m: int|
                    0 <= m < BUFFER_LEN && !(start <= m < start + k) ==> self.buf@[m] == old(
                        self,
                    ).buf@[m],
            decreases n - k,
        {
            self.buf[start + k] = data[k];
            k = k + 1;
        }
        self.write_index = start + n;
        assert(self@.mem =~= old(self)@.write(data@).mem);
    }

    /// Writes `s` into the buffer, after any unread bytes.  The end of the
    /// buffer must have room for the whole string.
    pub fn append(&mut self, s: &str)
        requires
            old(self)@.can_write(s.spec_bytes().len() as int),
        ensures
            final(self)@ == old(self)@.write(s.spec_bytes()),
            final(self)@.wf(),
            final(self)@.mem.len() == BUFFER_LEN,
    {
        self.put(s.as_bytes());
    }

    /// Writes `s` into the buffer, after any unread bytes.  Returns `None`,
    /// and writes nothing, if the end of the buffer has no room for the whole
    /// string.
    pub fn try_append(&mut self, s: &str) -> (r: Option<()>)
        ensures
            r is Some <==> old(self)@.can_write(s.spec_bytes().len() as int),
            r is Some ==> final(self)@ == old(self)@.write(s.spec_bytes()),
            r is None ==> final(self)@ == old(self)@,
            final(self)@.wf(),
            final(self)@.mem.len() == BUFFER_LEN,
    {
        proof {
            use_type_invariant(&*self);
        }
        let data = s.as_bytes();
        if self.write_index >= BUFFER_LEN || BUFFER_LEN - self.write_index < data.len() {
            return None;
        }
        self.put(data);
        Some(())
    }

    /// Returns the writable part of the memory: everything from the write
    /// cursor on.  Write bytes at its beginning and then call `wrote` to commit
    /// them.  Returns `None` when the end of the memory is full, even if
    /// `shift` could make room.
    pub fn writable(&mut self) -> (r: Option<&mut [u8]>)
        ensures
            old(self)@.wf(),
            old(self)@.mem.len() == BUFFER_LEN,
            r is None <==> old(self)@.write_index >= BUFFER_LEN,
            r is None ==> final(self)@ == old(self)@,
            r is Some ==> r.unwrap()@ == old(self)@.writable() && final(self)@ == (BufferView {
                mem: old(self)@.mem.subrange(0, old(self)@.write_index) + final(r.unwrap())@,
                read_index: old(self)@.read_index,
                write_index: old(self)@.write_index,
            }),
    {
        proof {
            use_type_invariant(&*self);
        }
        if self.write_index >= BUFFER_LEN {
            return None;
        }
        let (_, tail) = self.buf.split_at_mut(self.write_index);
        Some(tail)
    }

    /// Commits `num_bytes` bytes that were written to the front of the
    /// writable part.  They must fit into the memory.
    pub fn wrote(&mut self, num_bytes: usize)
        requires
            old(self)@.write_index + num_bytes <= BUFFER_LEN,
        ensures
            final(self)@ == old(self)@.wrote(num_bytes as int),
            final(self)@.wf(),
            final(self)@.mem.len() == BUFFER_LEN,
            final(self)@.readable().len() == old(self)@.readable().len() + num_bytes,
    {
        proof {
            use_type_invariant(&*self);
        }
        self.write_index = self.write_index + num_bytes;
    }

    /// Returns the readable bytes: those between the two cursors.
    pub fn readable(&self) -> (r: &[u8])
        ensures
            self@.wf(),
            self@.mem.len() == BUFFER_LEN,
            r@ == self@.readable(),
            r@.len() == self@.write_index - self@.read_index,
    {
        proof {
            use_type_invariant(self);
        }
        vstd::slice::slice_subrange(self.buf.as_slice(), self.read_index, self.write_index)
    }

    /// Consumes `num_bytes` readable bytes, which must be there.  When nothing
    /// is left to read both cursors return to the start of the memory.
    pub fn consume(&mut self, num_bytes: usize)
        requires
            num_bytes <= old(self)@.readable().len(),
        ensures
            final(self)@ == old(self)@.consume(num_bytes as int),
            final(self)@.wf(),
            final(self)@.mem.len() == BUFFER_LEN,
            final(self)@.readable() == old(self)@.readable().subrange(
                num_bytes as int,
                old(self)@.readable().len() as int,
            ),
    {
        proof {
            use_type_invariant(&*self);
        }
        let new_read_index: usize = self.read_index + num_bytes;
        if new_read_index == self.write_index {
            self.read_index = 0;
            self.write_index = 0;
        } else {
            self.read_index = new_read_index;
        }
        assert(self@.readable() =~= old(self)@.readable().subrange(
            num_bytes as int,
            old(self)@.readable().len() as int,
        ));
    }

    /// Consumes and returns all readable bytes.  The buffer becomes empty and
    /// later writes can fill the whole memory.
    pub fn read_all(&mut self) -> (r: &[u8])
        ensures
            r@ == old(self)@.readable(),
            final(self)@ == old(self)@.read_all(),
            final(self)@.wf(),
            final(self)@.mem.len() == BUFFER_LEN,
    {
        proof {
            use_type_invariant(&*self);
        }
        let start: usize = self.read_index;
        let end: usize = self.write_index;
        self.read_index = 0;
        self.write_index = 0;
        vstd::slice::slice_subrange(self.buf.as_slice(), start, end)
    }

    /// One step of reading up to a delimiter.  Searches the readable bytes
    /// for `delim`.  If it is there, consumes the bytes through its first
    /// occurrence and returns those before it; bytes behind it stay readable.
    /// If it is not there, shifts the unread bytes to the front and returns
    /// `Ok(None)`: the caller reads more input into `writable`, reports it with
    /// `read_delimited_input` and calls again.  Fails if the end of the
    /// buffer is full and the delimiter is still missing.
    pub fn read_delimited(&mut self, delim: &[u8]) -> (r: Result<
        Option<&[u8]>,
        ReadDelimitedError,
    >)
        requires
            delim@.len() > 0,
        ensures
            final(self)@ == old(self)@.read_delimited(delim@),
            final(self)@.wf(),
            final(self)@.mem.len() == BUFFER_LEN,
            match old(self)@.read_delimited_result(delim@) {
                Ok(Some(head)) => r matches Ok(Some(h)) && h@ == head,
                Ok(None) => r matches Ok(None),
                Err(e) => r == Err::<Option<&[u8]>, ReadDelimitedError>(e),
            },
            r matches Ok(None) ==> final(self)@.write_index < BUFFER_LEN,
    {
        proof {
            use_type_invariant(&*self);
        }
        let found = find_first(self.readable(), delim);
        match found {
            Some(delim_index) => {
                let result_start: usize = self.read_index;
                let result_end: usize = self.read_index + delim_index;
                self.consume(delim_index + delim.len());
                Ok(
                    Some(
                        vstd::slice::slice_subrange(self.buf.as_slice(), result_start, result_end),
                    ),
                )
            },
            None => {
                self.shift();
                if self.write_index >= BUFFER_LEN {
                    Err(ReadDelimitedError::BufferFull)
                } else {
                    Ok(None)
                }
            },
        }
    }

    /// Accounts for what a read into `writable` returned while the delimiter
    /// is still missing.  `num_bytes_read` bytes are committed.  Zero bytes
    /// mean that the input has ended: that is a failure, and which one depends
    /// on whether the buffer holds unread bytes.
    pub fn read_delimited_input(&mut self, num_bytes_read: usize) -> (r: Result<
        (),
        ReadDelimitedError,
    >)
        requires
            old(self)@.write_index + num_bytes_read <= BUFFER_LEN,
        ensures
            final(self)@.wf(),
            final(self)@.mem.len() == BUFFER_LEN,
            num_bytes_read > 0 ==> r is Ok && final(self)@ == old(self)@.wrote(
                num_bytes_read as int,
            ),
            num_bytes_read == 0 ==> final(self)@ == old(self)@ && r == Err::<
                (),
                ReadDelimitedError,
            >(old(self)@.eof_error()),
    {
        proof {
            use_type_invariant(&*self);
        }
        if num_bytes_read == 0 {
            if self.read_index == self.write_index {
                return Err(ReadDelimitedError::EofNoData);
            }
            return Err(ReadDelimitedError::EofBeforeDelim);
        }
        self.wrote(num_bytes_read);
        Ok(())
    }

    /// Reads from `input` until `delim` is found, and returns the bytes before
    /// it: calls `read_delimited`, and as long as that asks for more input,
    /// reads once from `input` into `writable` and reports it with
    /// `read_delimited_input`.  What follows the delimiter stays readable in
    /// the buffer, or unread in the input.
    pub fn read_delimited_from<'b>(
        &'b mut self,
        input: &mut ChunkedInput,
        delim: &[u8],
    ) -> (r: Result<&'b [u8], ReadDelimitedError>)
        requires
            delim@.len() > 0,
        ensures
            final(self)@ == old(self)@.read_delimited_from(old(input)@, delim@).buffer,
            final(input)@ == old(self)@.read_delimited_from(old(input)@, delim@).unread,
            match old(self)@.read_delimited_from(old(input)@, delim@).result {
                Ok(head) => r matches Ok(h) && h@ == head,
                Err(e) => r == Err::<&'b [u8], ReadDelimitedError>(e),
            },
            final(self)@.wf(),
            final(self)@.mem.len() == BUFFER_LEN,
    {
        let ghost run = self@.read_delimited_from(input@, delim@);
        loop
            invariant
                delim@.len() > 0,
                run == old(self)@.read_delimited_from(old(input)@, delim@),
                run == self@.read_delimited_from(input@, delim@),
            ensures
                first_match(self@.readable(), delim@) is Some,
            decreases input@.len(), first_len(input@),
        {
            if find_first(self.readable(), delim).is_some() {
                break ;
            }
            let ghost asked = self@;
            let ghost offered = input@;
            match self.read_delimited(delim) {
                Err(e) => {
                    return Err(e);
                },
                Ok(_) => {},
            }
            let ghost shifted = self@;
            let num_bytes_read: usize = match self.writable() {
                Some(window) => input.read(window),
                None => 0,
            };
            proof {
                let room = shifted.mem.len() - shifted.write_index;
                let taken = next_read(offered, room);
                assert(self@.mem =~= shifted.write(taken).mem);
                if taken.len() == 0 {
                    assert(shifted.write(taken).mem =~= shifted.mem);
                    assert(self@ == shifted);
                    assert(input@ == offered);
                }
            }
            match self.read_delimited_input(num_bytes_read) {
                Err(e) => {
                    return Err(e);
                },
                Ok(()) => {},
            }
        }
        match self.read_delimited(delim) {
            Ok(Some(head)) => Ok(head),
            _ => vstd::pervasive::unreached(),
        }
    }

    /// Recovers buffer space: moves the unread bytes to the start of the
    /// memory, so that the space of the bytes already read becomes writable.
    pub fn shift(&mut self)
        ensures
            final(self)@ == old(self)@.shift(),
            final(self)@.wf(),
            final(self)@.mem.len() == BUFFER_LEN,
            final(self)@.read_index == 0,
            final(self)@.readable() == old(self)@.readable(),
    {
        proof {
            use_type_invariant(&*self);
        }
        if self.read_index == 0 {
            assert(self@.mem =~= old(self)@.shift().mem);
            assert(self@.readable() =~= old(self)@.readable());
            return ;
        }
        let from: usize = self.read_index;
        let len: usize = self.write_index - self.read_index;
        let mut k: usize = 0;
        while k < len
            invariant
                from + len <= BUFFER_LEN,
                k <= len,
                self.read_index == from,
                self.write_index == from + len,
                from > 0,
                forall|m: int| 0 <= m < k ==> self.buf@[m] == old(self).buf@[from + m],
                forall|m: int| k <= m < BUFFER_LEN ==> self.buf@[m] == old(self).buf@[m],
            decreases len - k,
        {
            let b: u8 = self.buf[from + k];
            self.buf[k] = b;
            k = k + 1;
        }
        self.read_index = 0;
        self.write_index = len;
        assert(self@.mem =~= old(self)@.shift().mem);
        assert(self@.readable() =~= old(self)@.readable());
    }
}

impl std::io::Write for FixedBuf {
    /// Writes all of `data` behind the unread bytes, or nothing.  Fails when
    /// the end of the buffer is full or has less room than `data` needs.
    fn write(&mut self, data: &[u8]) -> (r: std::io::Result<usize>)
        ensures
            r is Ok <==> old(self)@.can_write(data@.len() as int),
            r matches Ok(n) ==> n == data@.len() && final(self)@ == old(self)@.write(data@),
            r is Err ==> final(self)@ == old(self)@ && r == Err::<usize, std::io::Error>(
                if old(self)@.write_index >= BUFFER_LEN {
                    io_error(IoErrorKind::InvalidData, "end of buffer full"@)
                } else {
                    io_error(IoErrorKind::InvalidData, "Not enough free space in buffer"@)
                },
            ),
            final(self)@.wf(),
            final(self)@.mem.len() == BUFFER_LEN,
    {
        proof {
            use_type_invariant(&*self);
        }
        if self.write_index >= BUFFER_LEN {
            return Err(invalid_data("end of buffer full"));
        }
        if BUFFER_LEN - self.write_index < data.len() {
            return Err(invalid_data("Not enough free space in buffer"));
        }
        self.put(data);
        Ok(data.len())
    }

    /// Does nothing: what was written is in the buffer.
    fn flush(&mut self) -> (r: std::io::Result<()>)
        ensures
            r is Ok,
            final(self)@ == old(self)@,
    {
        Ok(())
    }
}

impl std::io::Read for FixedBuf {
    /// Moves as many readable bytes as fit to the front of `buf` and consumes
    /// them.
    fn read(&mut self, buf: &mut [u8]) -> (r: std::io::Result<usize>)
        ensures
            r matches Ok(n) && n == vstd::math::min(
                old(buf)@.len() as int,
                old(self)@.readable().len() as int,
            ) && final(buf)@ == old(self)@.readable().subrange(0, n as int) + old(buf)@.subrange(
                n as int,
                old(buf)@.len() as int,
            ) && final(self)@ == (if n == 0 {
                old(self)@
            } else {
                old(self)@.consume(n as int)
            }),
            final(self)@.wf(),
            final(self)@.mem.len() == BUFFER_LEN,
    {
        proof {
            use_type_invariant(&*self);
        }
        let avail: usize = self.write_index - self.read_index;
        let len: usize = if buf.len() < avail {
            buf.len()
        } else {
            avail
        };
        if len == 0 {
            assert(buf@ =~= old(self)@.readable().subrange(0, 0) + old(buf)@.subrange(
                0,
                old(buf)@.len() as int,
            ));
            return Ok(0);
        }
        let from: usize = self.read_index;
        let mut k: usize = 0;
        while k < len
            invariant
                k <= len,
                len <= buf@.len(),
                buf@.len() == old(buf)@.len(),
                from + len <= self.write_index,
                self.write_index <= BUFFER_LEN,
                self.read_index == from,
                *self == *old(self),
                forall|m: int| 0 <= m < k ==> buf@[m] == self.buf@[from + m],
                forall|m: int| k <= m < buf@.len() ==> buf@[m] == old(buf)@[m],
            decreases len - k,
        {
            buf[k] = self.buf[from + k];
            k = k + 1;
        }
        self.consume(len);
        assert(buf@ =~= old(self)@.readable().subrange(0, len as int) + old(buf)@.subrange(
            len as int,
            old(buf)@.len() as int,
        ));
        Ok(len)
    }
}

} // verus!
