//! A byte buffer over borrowed memory, with a read cursor and a write cursor.

use vstd::prelude::*;
use vstd::string::StringSliceAdditionalSpecFns;
use crate::buffer_view::{BufferView, ReadDelimitedError};
use crate::search::{find_first, first_match, lemma_first_match_props};
use crate::io_error::{invalid_data, io_error, IoErrorKind};

verus! {

/// A byte buffer that uses memory lent by its owner.  Bytes are written at the
/// end and read from the front; `shift` moves the unread bytes to the front.
/// `new` makes a well-formed buffer, and every method asks for one and leaves
/// one.
pub struct Buffer<'a> {
    buf: &'a mut [u8],
    write_index: usize,
    read_index: usize,
}

impl<'a> View for Buffer<'a> {
    type V = BufferView;

    closed spec fn view(&self) -> BufferView {
        BufferView {
            mem: self.buf@,
            read_index: self.read_index as int,
            write_index: self.write_index as int,
        }
    }
}

impl<'a> Buffer<'a> {
    /// Makes a new empty buffer over `buf`.
    pub fn new(buf: &'a mut [u8]) -> (r: Buffer<'a>)
        ensures
            r@ == (BufferView { mem: old(buf)@, read_index: 0, write_index: 0 }),
            r@.wf(),
    {
        Buffer { buf, write_index: 0, read_index: 0 }
    }

    /// Copies `data` behind the unread bytes and commits it.
    fn put(&mut self, data: &[u8])
        requires
            old(self)@.wf(),
            old(self)@.can_write(data@.len() as int),
        ensures
            final(self)@ == old(self)@.write(data@),
            final(self)@.wf(),
    {
        let n: usize = data.len();
        let cap: usize = self.buf.len();
        let start: usize = self.write_index;
        let mut k: usize = 0;
        while k < n
            invariant
                n == data@.len(),
                cap == self.buf@.len(),
                start + n <= self.buf@.len(),
                self.buf@.len() == old(self).buf@.len(),
                k <= n,
                self.write_index == start,
                self.read_index == old(self).read_index,
                self.read_index <= start,
                forall|m: int| 0 <= m < k ==> self.buf@[start + m] == data@[m],
                forall|m: int|
                    0 <= m < self.buf@.len() && !(start <= m < start + k) ==> self.buf@[m] == old(
                        self,
                    ).buf@[m],
            decreases n - k,
        {
            self.buf[start + k] = data[k];
            k = k + 1;
        }
        self.write_index = start + n;
        assert(self@.mem =~= old(self)@.write(data@).mem);
    }

    /// Writes `s` into the buffer, after any unread bytes.  The end of the
    /// memory must have room for the whole string.
    pub fn append(&mut self, s: &str)
        requires
            old(self)@.wf(),
            old(self)@.can_write(s.spec_bytes().len() as int),
        ensures
            final(self)@ == old(self)@.write(s.spec_bytes()),
            final(self)@.wf(),
    {
        self.put(s.as_bytes());
    }

    /// Returns the writable part of the memory: everything from the write
    /// cursor on.  Returns `None` when the end of the memory is full.
    pub fn writable(&mut self) -> (r: Option<&mut [u8]>)
        requires
            old(self)@.wf(),
        ensures
            r is Some ==> final(self)@.wf(),
            r is None <==> old(self)@.write_index >= old(self)@.mem.len(),
            r is None ==> final(self)@ == old(self)@,
            r is Some ==> r.unwrap()@ == old(self)@.writable() && final(self)@ == (BufferView {
                mem: old(self)@.mem.subrange(0, old(self)@.write_index) + final(r.unwrap())@,
                read_index: old(self)@.read_index,
                write_index: old(self)@.write_index,
            }),
    {
        if self.write_index >= self.buf.len() {
            return None;
        }
        let (_, tail) = self.buf.split_at_mut(self.write_index);
        Some(tail)
    }

    /// Commits `num_bytes` bytes that were written to the front of the
    /// writable part.  They must fit into the memory.
    pub fn wrote(&mut self, num_bytes: usize)
        requires
            old(self)@.wf(),
            old(self)@.write_index + num_bytes <= old(self)@.mem.len(),
        ensures
            final(self)@ == old(self)@.wrote(num_bytes as int),
            final(self)@.wf(),
    {
        let cap: usize = self.buf.len();
        assert(self.write_index + num_bytes <= cap);
        self.write_index = self.write_index + num_bytes;
    }

    /// Returns the readable bytes: those between the two cursors.
    pub fn readable(&self) -> (r: &[u8])
        requires
            self@.wf(),
        ensures
            r@ == self@.readable(),
            r@.len() == self@.write_index - self@.read_index,
    {
        vstd::slice::slice_subrange(self.buf, self.read_index, self.write_index)
    }

    /// Consumes `num_bytes` readable bytes, which must be there.  When nothing
    /// is left to read both cursors return to the start of the memory.
    pub fn read(&mut self, num_bytes: usize)
        requires
            old(self)@.wf(),
            num_bytes <= old(self)@.readable().len(),
        ensures
            final(self)@ == old(self)@.consume(num_bytes as int),
            final(self)@.wf(),
    {
        let new_read_index: usize = self.read_index + num_bytes;
        if new_read_index == self.write_index {
            self.read_index = 0;
            self.write_index = 0;
        } else {
            self.read_index = new_read_index;
        }
    }

    /// Forgets all readable bytes.  The buffer becomes empty and later writes
    /// can fill the whole memory.
    pub fn read_all(&mut self)
        requires
            old(self)@.wf(),
        ensures
            final(self)@ == old(self)@.read_all(),
            final(self)@.wf(),
    {
        self.read_index = 0;
        self.write_index = 0;
    }

    /// One step of reading up to a delimiter.  Searches the readable bytes
    /// for `delim`.  If it is there, returns the bytes before its first
    /// occurrence and puts the read cursor behind it.  If it is not there,
    /// returns `Ok(None)`: the caller reads more input into `writable`, reports
    /// it with `read_delimited_input` and calls again.  Fails if the end of the
    /// memory is full and the delimiter is still missing.
    pub fn read_delimited(&mut self, delim: &[u8]) -> (r: Result<
        Option<&[u8]>,
        ReadDelimitedError,
    >)
        requires
            old(self)@.wf(),
            delim@.len() > 0,
        ensures
            final(self)@.wf(),
            match first_match(old(self)@.readable(), delim@) {
                Some(i) => {
                    &&& r matches Ok(Some(head)) && head@ == old(self)@.readable().subrange(0, i)
                    &&& final(self)@ == (BufferView {
                        read_index: old(self)@.read_index + i + delim@.len(),
                        ..old(self)@
                    })
                    &&& final(self)@.readable() == old(self)@.readable().subrange(
                        i + delim@.len(),
                        old(self)@.readable().len() as int,
                    )
                },
                None => {
                    &&& final(self)@ == old(self)@
                    &&& if old(self)@.write_index >= old(self)@.mem.len() {
                        r == Err::<Option<&[u8]>, ReadDelimitedError>(
                            ReadDelimitedError::BufferFull,
                        )
                    } else {
                        r matches Ok(None)
                    }
                },
            },
    {
        proof {
            lemma_first_match_props(self@.readable(), delim@);
        }
        match find_first(self.readable(), delim) {
            Some(delim_index) => {
                let result_start: usize = self.read_index;
                let result_end: usize = self.read_index + delim_index;
                self.read_index = result_end + delim.len();
                let head = vstd::slice::slice_subrange(self.buf, result_start, result_end);
                assert(head@ =~= old(self)@.readable().subrange(0, delim_index as int));
                assert(self@.readable() =~= old(self)@.readable().subrange(
                    delim_index + delim@.len(),
                    old(self)@.readable().len() as int,
                ));
                Ok(Some(head))
            },
            None => {
                if self.write_index >= self.buf.len() {
                    Err(ReadDelimitedError::BufferFull)
                } else {
                    Ok(None)
                }
            },
        }
    }

    /// The error of input and output that stands for a failed delimited read
    /// from this kind of buffer: as for every buffer, but with a message of
    /// its own for a full one.
    pub open spec fn delimited_io_error(e: ReadDelimitedError) -> std::io::Error {
        match e {
            ReadDelimitedError::BufferFull => io_error(IoErrorKind::InvalidData, "buffer full"@),
            other => other.io_error(),
        }
    }

    /// Makes the error of input and output that stands for a failed delimited
    /// read from this kind of buffer.
    pub fn to_io_error(e: ReadDelimitedError) -> (r: std::io::Error)
        ensures
            r == Self::delimited_io_error(e),
    {
        match e {
            ReadDelimitedError::BufferFull => invalid_data("buffer full"),
            other => other.to_io_error(),
        }
    }

    /// Accounts for what a read into `writable` returned while the delimiter
    /// is still missing: `num_bytes_read` bytes are committed.  Zero bytes mean
    /// that the input has ended, which is a failure.
    pub fn read_delimited_input(&mut self, num_bytes_read: usize) -> (r: Result<
        (),
        ReadDelimitedError,
    >)
        requires
            old(self)@.wf(),
            old(self)@.write_index + num_bytes_read <= old(self)@.mem.len(),
        ensures
            final(self)@.wf(),
            num_bytes_read > 0 ==> r is Ok && final(self)@ == old(self)@.wrote(
                num_bytes_read as int,
            ),
            num_bytes_read == 0 ==> final(self)@ == old(self)@ && r == Err::<
                (),
                ReadDelimitedError,
            >(ReadDelimitedError::EofBeforeDelim),
    {
        if num_bytes_read == 0 {
            return Err(ReadDelimitedError::EofBeforeDelim);
        }
        self.wrote(num_bytes_read);
        Ok(())
    }

    /// Moves the unread bytes to the start of the memory.
    pub fn shift(&mut self)
        requires
            old(self)@.wf(),
        ensures
            final(self)@ == old(self)@.shift(),
            final(self)@.wf(),
            final(self)@.readable() == old(self)@.readable(),
    {
        if self.read_index == 0 {
            assert(self@.mem =~= old(self)@.shift().mem);
            assert(self@.readable() =~= old(self)@.readable());
            return ;
        }
        let from: usize = self.read_index;
        let len: usize = self.write_index - self.read_index;
        let mut k: usize = 0;
        while k < len
            invariant
                from + len <= self.buf@.len(),
                self.buf@.len() == old(self).buf@.len(),
                k <= len,
                self.read_index == from,
                self.write_index == from + len,
                from > 0,
                forall|m: int| 0 <= m < k ==> self.buf@[m] == old(self).buf@[from + m],
                forall|m: int| k <= m < self.buf@.len() ==> self.buf@[m] == old(self).buf@[m],
            decreases len - k,
        {
            let b: u8 = self.buf[from + k];
            self.buf[k] = b;
            k = k + 1;
        }
        self.read_index = 0;
        self.write_index = len;
        assert(self@.mem =~= old(self)@.shift().mem);
        assert(self@.readable() =~= old(self)@.readable());
    }
}

impl<'a> std::io::Write for Buffer<'a> {
    /// Writes all of `data` behind the unread bytes, or nothing.  Fails when
    /// the end of the memory is full or has less room than `data` needs.
    fn write(&mut self, data: &[u8]) -> (r: std::io::Result<usize>)
        requires
            old(self)@.wf(),
        ensures
            r is Ok <==> old(self)@.can_write(data@.len() as int),
            r matches Ok(n) ==> n == data@.len() && final(self)@ == old(self)@.write(data@),
            r is Err ==> final(self)@ == old(self)@ && r == Err::<usize, std::io::Error>(
                if old(self)@.write_index >= old(self)@.mem.len() {
                    io_error(IoErrorKind::InvalidData, "Buffer full"@)
                } else {
                    io_error(IoErrorKind::InvalidData, "Not enough free space in Buffer"@)
                },
            ),
            final(self)@.wf(),
    {
        let cap: usize = self.buf.len();
        if self.write_index >= cap {
            return Err(invalid_data("Buffer full"));
        }
        if cap - self.write_index < data.len() {
            return Err(invalid_data("Not enough free space in Buffer"));
        }
        self.put(data);
        Ok(data.len())
    }

    /// Does nothing: what was written is in the buffer.
    fn flush(&mut self) -> (r: std::io::Result<()>)
        ensures
            r is Ok,
            final(self)@ == old(self)@,
    {
        Ok(())
    }
}

} // verus!
