//! The mathematical model of a byte buffer with a read cursor and a write
//! cursor, and what holds of it.

use vstd::prelude::*;
use crate::search::{
    first_match, is_first_match, lemma_first_match_is, lemma_first_match_props, matches_at,
};

verus! {

/// Why a delimited read ended without finding the delimiter.
#[derive(Clone, Copy, Debug, PartialEq, Eq, Structural)]
pub enum ReadDelimitedError {
    /// The end of the buffer filled up before the delimiter was found.
    BufferFull,
    /// The input ended and the buffer held no unread byte: nothing was read
    /// since the last delimiter.
    EofNoData,
    /// The input ended while the buffer held unread bytes without the
    /// delimiter.
    EofBeforeDelim,
}

/// The mathematical state of a buffer: its memory and its two cursors.
pub struct BufferView {
    pub mem: Seq<u8>,
    pub read_index: int,
    pub write_index: int,
}

impl BufferView {
    /// The cursors are ordered and lie within the memory.
    pub open spec fn wf(self) -> bool {
        0 <= self.read_index <= self.write_index <= self.mem.len()
    }

    /// The bytes that were written and not yet read.
    pub open spec fn readable(self) -> Seq<u8> {
        self.mem.subrange(self.read_index, self.write_index)
    }

    /// The free space at the end of the memory.
    pub open spec fn writable(self) -> Seq<u8> {
        self.mem.subrange(self.write_index, self.mem.len() as int)
    }

    /// The state after `n` bytes of the writable window are committed.
    pub open spec fn wrote(self, n: int) -> BufferView {
        BufferView { mem: self.mem, read_index: self.read_index, write_index: self.write_index + n }
    }

    /// The state after `n` readable bytes are consumed.  Both cursors return to
    /// zero when nothing is left to read.
    pub open spec fn consume(self, n: int) -> BufferView {
        if self.read_index + n == self.write_index {
            BufferView { mem: self.mem, read_index: 0, write_index: 0 }
        } else {
            BufferView {
                mem: self.mem,
                read_index: self.read_index + n,
                write_index: self.write_index,
            }
        }
    }

    /// Whether `n` more bytes can be written at the end of the memory.  Nothing
    /// can be written once the write cursor has reached the end, not even
    /// zero bytes.
    pub open spec fn can_write(self, n: int) -> bool {
        self.write_index < self.mem.len() && n <= self.mem.len() - self.write_index
    }

    /// The state after `data` is written behind the unread bytes.
    pub open spec fn write(self, data: Seq<u8>) -> BufferView {
        BufferView {
            mem: self.mem.subrange(0, self.write_index) + data + self.mem.subrange(
                self.write_index + data.len(),
                self.mem.len() as int,
            ),
            read_index: self.read_index,
            write_index: self.write_index + data.len(),
        }
    }

    /// The state after everything was read.
    pub open spec fn read_all(self) -> BufferView {
        BufferView { mem: self.mem, read_index: 0, write_index: 0 }
    }

    /// The state after one search for `delim`: where it is found the bytes
    /// through its first occurrence are consumed, else the unread bytes are
    /// shifted to the front to make room for more input.
    pub open spec fn read_delimited(self, delim: Seq<u8>) -> BufferView {
        match first_match(self.readable(), delim) {
            Some(i) => self.consume(i + delim.len()),
            None => self.shift(),
        }
    }

    /// What one search for `delim` returns: the bytes before its first
    /// occurrence, or nothing yet, or the failure when the end of the memory is
    /// full.
    pub open spec fn read_delimited_result(self, delim: Seq<u8>) -> Result<
        Option<Seq<u8>>,
        ReadDelimitedError,
    > {
        match first_match(self.readable(), delim) {
            Some(i) => Ok(Some(self.readable().subrange(0, i))),
            None => if self.shift().write_index >= self.mem.len() {
                Err(ReadDelimitedError::BufferFull)
            } else {
                Ok(None)
            },
        }
    }

    /// The state after the unread bytes are moved to the front of the memory.
    pub open spec fn shift(self) -> BufferView {
        BufferView {
            mem: self.readable() + self.mem.subrange(
                self.write_index - self.read_index,
                self.mem.len() as int,
            ),
            read_index: 0,
            write_index: self.write_index - self.read_index,
        }
    }
}

/// A buffer with `capacity` bytes of zeroed memory that holds nothing.
pub open spec fn empty_buffer(capacity: nat) -> BufferView {
    BufferView { mem: Seq::new(capacity, |i: int| 0u8), read_index: 0, write_index: 0 }
}

/// One of the two operations that move a cursor forward.
pub enum CursorOp {
    /// `wrote` with this number of bytes.
    Wrote(nat),
    /// `consume` with this number of bytes.
    Consume(nat),
}

impl BufferView {
    /// Whether `op` respects the capacity and the number of unread bytes.
    pub open spec fn allows(self, op: CursorOp) -> bool {
        match op {
            CursorOp::Wrote(n) => self.write_index + n <= self.mem.len(),
            CursorOp::Consume(n) => n <= self.readable().len(),
        }
    }

    /// The state after `op`.
    pub open spec fn apply(self, op: CursorOp) -> BufferView {
        match op {
            CursorOp::Wrote(n) => self.wrote(n as int),
            CursorOp::Consume(n) => self.consume(n as int),
        }
    }

    /// Whether each of `ops` is allowed in the state that those before it
    /// lead to.
    pub open spec fn allows_all(self, ops: Seq<CursorOp>) -> bool
        decreases ops.len(),
    {
        ops.len() == 0 || (self.allows(ops[0]) && self.apply(ops[0]).allows_all(ops.drop_first()))
    }

    /// The state after all of `ops`, in order.
    pub open spec fn apply_all(self, ops: Seq<CursorOp>) -> BufferView
        decreases ops.len(),
    {
        if ops.len() == 0 {
            self
        } else {
            self.apply(ops[0]).apply_all(ops.drop_first())
        }
    }
}

/// Buffer invariant: after any sequence of `wrote` and `consume` that respects
/// the capacity and the number of unread bytes, the read cursor is at most the
/// write cursor, the write cursor is at most the capacity, and the number of
/// readable bytes is the distance between the cursors.
pub proof fn lemma_cursors_stay_ordered(v: BufferView, ops: Seq<CursorOp>)
    requires
        v.wf(),
        v.allows_all(ops),
    ensures
        v.apply_all(ops).wf(),
        v.apply_all(ops).mem == v.mem,
        v.apply_all(ops).read_index <= v.apply_all(ops).write_index <= v.mem.len(),
        v.apply_all(ops).readable().len() == v.apply_all(ops).write_index - v.apply_all(
            ops,
        ).read_index,
    decreases ops.len(),
{
    if ops.len() > 0 {
        lemma_cursors_stay_ordered(v.apply(ops[0]), ops.drop_first());
    }
}

/// Shift idempotence: a second `shift` changes nothing, and `shift` keeps the
/// readable bytes.
pub proof fn lemma_shift_idempotent(v: BufferView)
    requires
        v.wf(),
    ensures
        v.shift().wf(),
        v.shift().shift() == v.shift(),
        v.shift().readable() == v.readable(),
{
    assert(v.shift().readable() =~= v.readable());
    assert(v.shift().shift().mem =~= v.shift().mem);
}

/// What is written becomes readable behind the bytes that were readable.
pub proof fn lemma_write_appends(v: BufferView, data: Seq<u8>)
    requires
        v.wf(),
        v.can_write(data.len() as int),
    ensures
        v.write(data).wf(),
        v.write(data).readable() == v.readable() + data,
{
    assert(v.write(data).readable() =~= v.readable() + data);
}

/// Delimiter round trip: where the unread bytes are `s`, then `delim`, then
/// `rest`, and `delim` occurs in `s + delim` nowhere before its end, one
/// `read_delimited` returns exactly `s` and leaves exactly `rest` readable.
pub proof fn lemma_read_delimited_round_trip(
    v: BufferView,
    s: Seq<u8>,
    delim: Seq<u8>,
    rest: Seq<u8>,
)
    requires
        v.wf(),
        delim.len() > 0,
        v.readable() == s + delim + rest,
        first_match(s + delim, delim) == Some(s.len() as int),
    ensures
        v.read_delimited_result(delim) == Ok::<Option<Seq<u8>>, ReadDelimitedError>(Some(s)),
        v.read_delimited(delim).readable() == rest,
        v.read_delimited(delim).wf(),
{
    let all = s + delim + rest;
    let at = s.len() as int;
    lemma_first_match_props(s + delim, delim);
    assert(all.subrange(at, at + delim.len()) =~= delim);
    assert forall|j: int| 0 <= j < at implies !matches_at(all, delim, j) by {
        if matches_at(all, delim, j) {
            assert((s + delim).subrange(j, j + delim.len()) =~= all.subrange(j, j + delim.len()));
            assert(matches_at(s + delim, delim, j));
        }
    }
    assert(is_first_match(all, delim, at));
    lemma_first_match_is(all, delim, at);
    assert(all.subrange(0, at) =~= s);
    assert(v.readable().len() == v.write_index - v.read_index);
    assert(all.len() == s.len() + delim.len() + rest.len());
    assert(rest =~= all.subrange(at + delim.len(), all.len() as int));
    assert(v.consume(at + delim.len()).readable() =~= rest);
}

/// All of `chunks`, one behind the other.
pub open spec fn concat(chunks: Seq<Seq<u8>>) -> Seq<u8>
    decreases chunks.len(),
{
    if chunks.len() == 0 {
        Seq::empty()
    } else {
        chunks[0] + concat(chunks.drop_first())
    }
}

/// What one read of at most `room` bytes returns from an input that still
/// has `chunks` to hand out: the first chunk, or as much of its front as
/// there is room for.  An input without chunks, or with an empty chunk at its
/// front, has ended and returns nothing.
pub open spec fn next_read(chunks: Seq<Seq<u8>>, room: int) -> Seq<u8> {
    if chunks.len() == 0 || room <= 0 {
        Seq::empty()
    } else if chunks[0].len() <= room {
        chunks[0]
    } else {
        chunks[0].subrange(0, room)
    }
}

/// What the input still has to hand out after one read of at most `room`
/// bytes: what did not fit of the first chunk comes first at the next read.
pub open spec fn after_read(chunks: Seq<Seq<u8>>, room: int) -> Seq<Seq<u8>> {
    if chunks.len() == 0 || chunks[0].len() == 0 || room <= 0 {
        chunks
    } else if chunks[0].len() <= room {
        chunks.drop_first()
    } else {
        seq![chunks[0].subrange(room, chunks[0].len() as int)] + chunks.drop_first()
    }
}

/// The length of the first of `chunks`, or 0 if there is none.
pub open spec fn first_len(chunks: Seq<Seq<u8>>) -> nat {
    if chunks.len() == 0 {
        0
    } else {
        chunks[0].len()
    }
}

/// How reading up to a delimiter from an input ends: the state of the
/// buffer, what was found or why nothing was, and what the input has not yet
/// handed out.
pub struct DelimitedRun {
    pub buffer: BufferView,
    pub result: Result<Seq<u8>, ReadDelimitedError>,
    pub unread: Seq<Seq<u8>>,
}

impl BufferView {
    /// The failure when the input has ended and the delimiter is missing:
    /// `EofNoData` if no byte is unread, else `EofBeforeDelim`.
    pub open spec fn eof_error(self) -> ReadDelimitedError {
        if self.readable().len() == 0 {
            ReadDelimitedError::EofNoData
        } else {
            ReadDelimitedError::EofBeforeDelim
        }
    }

    /// Reading up to `delim` from an input that still has `chunks` to hand
    /// out: `read_delimited` is called, and as long as it asks for more input,
    /// one read of the input is written behind the unread bytes.  A read that
    /// returns nothing means that the input has ended.
    pub open spec fn read_delimited_from(self, chunks: Seq<Seq<u8>>, delim: Seq<u8>) -> DelimitedRun
        decreases chunks.len(), first_len(chunks),
    {
        let next = self.read_delimited(delim);
        match self.read_delimited_result(delim) {
            Ok(Some(head)) => DelimitedRun { buffer: next, result: Ok(head), unread: chunks },
            Err(e) => DelimitedRun { buffer: next, result: Err(e), unread: chunks },
            Ok(None) => {
                let room = next.mem.len() - next.write_index;
                if next_read(chunks, room).len() == 0 {
                    DelimitedRun { buffer: next, result: Err(next.eof_error()), unread: chunks }
                } else {
                    next.write(next_read(chunks, room)).read_delimited_from(
                        after_read(chunks, room),
                        delim,
                    )
                }
            },
        }
    }
}

/// What a read returns, followed by what the input then still has, is what
/// the input had.
pub proof fn lemma_read_takes_front(chunks: Seq<Seq<u8>>, room: int)
    ensures
        next_read(chunks, room) + concat(after_read(chunks, room)) == concat(chunks),
        next_read(chunks, room).len() <= room || room < 0,
{
    if chunks.len() == 0 || chunks[0].len() == 0 || room <= 0 {
        if chunks.len() > 0 && room > 0 {
            assert(next_read(chunks, room) =~= Seq::<u8>::empty());
        }
        assert(next_read(chunks, room) + concat(chunks) =~= concat(chunks));
    } else if chunks[0].len() <= room {
    } else {
        let left = after_read(chunks, room);
        assert(left[0] == chunks[0].subrange(room, chunks[0].len() as int));
        assert(left.drop_first() =~= chunks.drop_first());
        assert(next_read(chunks, room) + concat(left) =~= concat(chunks));
    }
}

/// Where `delim` first occurs in `all` at `at`, the unread bytes are the
/// front of `all`, the input hands out the rest of `all` in chunks that are
/// not empty, and the buffer has room up to the end of the delimiter, reading
/// up to `delim` returns what stands before `at`, and what stands behind the
/// delimiter is unread in the buffer or not yet handed out.
proof fn lemma_read_delimited_run(
    v: BufferView,
    chunks: Seq<Seq<u8>>,
    all: Seq<u8>,
    delim: Seq<u8>,
    at: int,
)
    requires
        v.wf(),
        delim.len() > 0,
        is_first_match(all, delim, at),
        all == v.readable() + concat(chunks),
        forall|i: int| 0 <= i < chunks.len() ==> (#[trigger] chunks[i]).len() > 0,
        at + delim.len() <= v.mem.len(),
    ensures
        v.read_delimited_from(chunks, delim).result == Ok::<Seq<u8>, ReadDelimitedError>(
            all.subrange(0, at),
        ),
        v.read_delimited_from(chunks, delim).buffer.wf(),
        v.read_delimited_from(chunks, delim).buffer.readable() + concat(
            v.read_delimited_from(chunks, delim).unread,
        ) == all.subrange(at + delim.len(), all.len() as int),
    decreases chunks.len(), first_len(chunks),
{
    let have = v.readable();
    if have.len() >= at + delim.len() {
        assert(have.subrange(at, at + delim.len()) =~= all.subrange(at, at + delim.len()));
        assert forall|j: int| 0 <= j < at implies !matches_at(have, delim, j) by {
            if matches_at(have, delim, j) {
                assert(all.subrange(j, j + delim.len()) =~= have.subrange(j, j + delim.len()));
                assert(matches_at(all, delim, j));
            }
        }
        assert(is_first_match(have, delim, at));
        lemma_first_match_is(have, delim, at);
        assert(have.subrange(0, at) =~= all.subrange(0, at));
        assert(v.consume(at + delim.len()).readable() =~= have.subrange(
            at + delim.len(),
            have.len() as int,
        ));
        assert(have.subrange(at + delim.len(), have.len() as int) + concat(chunks) =~= all.subrange(
            at + delim.len(),
            all.len() as int,
        ));
    } else {
        lemma_first_match_props(have, delim);
        if first_match(have, delim) is Some {
            let j = first_match(have, delim).unwrap();
            assert(all.subrange(j, j + delim.len()) =~= have.subrange(j, j + delim.len()));
            assert(matches_at(all, delim, j));
            assert(false);
        }
        let next = v.shift();
        assert(next.readable() =~= have);
        let room = next.mem.len() - next.write_index;
        assert(room > 0);
        assert(concat(chunks).len() > 0);
        assert(chunks.len() > 0);
        let taken = next_read(chunks, room);
        let left = after_read(chunks, room);
        lemma_read_takes_front(chunks, room);
        assert(taken.len() > 0);
        let fed = next.write(taken);
        assert(fed.readable() =~= have + taken);
        assert(all =~= fed.readable() + concat(left));
        assert forall|i: int| 0 <= i < left.len() implies (#[trigger] left[i]).len() > 0 by {
            if chunks[0].len() <= room {
                assert(left[i] == chunks[i + 1]);
            } else if i > 0 {
                assert(left[i] == chunks[i]);
            }
        }
        lemma_read_delimited_run(fed, left, all, delim, at);
    }
}

/// Delimiter round trip, from the input on: where an empty buffer reads
/// from an input that hands out `s`, then `delim`, then `rest`, cut into
/// chunks in any way, `delim` occurs in `s + delim` nowhere before its end,
/// and the buffer has room for `s` and `delim`, reading up to `delim` returns
/// exactly `s`.  Nothing of `rest` is lost and nothing is read twice: what the
/// buffer holds unread is the front of `rest`, and followed by what the input
/// has not yet handed out it is exactly `rest`.
pub proof fn lemma_read_delimited_from_input(
    v: BufferView,
    chunks: Seq<Seq<u8>>,
    s: Seq<u8>,
    delim: Seq<u8>,
    rest: Seq<u8>,
)
    requires
        v.wf(),
        v.readable().len() == 0,
        delim.len() > 0,
        first_match(s + delim, delim) == Some(s.len() as int),
        concat(chunks) == s + delim + rest,
        forall|i: int| 0 <= i < chunks.len() ==> (#[trigger] chunks[i]).len() > 0,
        s.len() + delim.len() <= v.mem.len(),
    ensures
        v.read_delimited_from(chunks, delim).result == Ok::<Seq<u8>, ReadDelimitedError>(s),
        v.read_delimited_from(chunks, delim).buffer.readable() + concat(
            v.read_delimited_from(chunks, delim).unread,
        ) == rest,
        v.read_delimited_from(chunks, delim).buffer.readable() == rest.subrange(
            0,
            v.read_delimited_from(chunks, delim).buffer.readable().len() as int,
        ),
        v.read_delimited_from(chunks, delim).unread.len() == 0 ==> v.read_delimited_from(
            chunks,
            delim,
        ).buffer.readable() == rest,
{
    let all = s + delim + rest;
    let at = s.len() as int;
    lemma_first_match_props(s + delim, delim);
    assert(all.subrange(at, at + delim.len()) =~= delim);
    assert forall|j: int| 0 <= j < at implies !matches_at(all, delim, j) by {
        if matches_at(all, delim, j) {
            assert((s + delim).subrange(j, j + delim.len()) =~= all.subrange(j, j + delim.len()));
            assert(matches_at(s + delim, delim, j));
        }
    }
    assert(is_first_match(all, delim, at));
    assert(v.readable() =~= Seq::<u8>::empty());
    assert(all =~= v.readable() + concat(chunks));
    lemma_read_delimited_run(v, chunks, all, delim, at);
    assert(all.subrange(0, at) =~= s);
    assert(all.subrange(at + delim.len(), all.len() as int) =~= rest);
    let run = v.read_delimited_from(chunks, delim);
    assert(run.buffer.readable() =~= rest.subrange(0, run.buffer.readable().len() as int));
    if run.unread.len() == 0 {
        assert(run.buffer.readable() + concat(run.unread) =~= run.buffer.readable());
    }
}

} // verus!
