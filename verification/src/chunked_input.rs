//! An input held in memory that hands out its bytes in chunks, as a socket
//! does.

use vstd::prelude::*;
use crate::buffer_view::{after_read, next_read};

verus! {

/// An input that hands out the given chunks, one at each read.  Where a
/// chunk does not fit into what it is read into, the rest of it comes at the
/// next read.  The input has ended when no chunk is left; an empty chunk
/// stands for an end before that.
pub struct ChunkedInput<'a> {
    chunks: &'a [&'a [u8]],
    index: usize,
    offset: usize,
}

impl<'a> View for ChunkedInput<'a> {
    type V = Seq<Seq<u8>>;

    /// What the input has still to hand out, chunk by chunk.
    closed spec fn view(&self) -> Seq<Seq<u8>> {
        if self.index >= self.chunks@.len() {
            Seq::empty()
        } else {
            Seq::new(
                (self.chunks@.len() - self.index) as nat,
                |k: int|
                    if k == 0 {
                        self.chunks@[self.index as int]@.subrange(
                            self.offset as int,
                            self.chunks@[self.index as int]@.len() as int,
                        )
                    } else {
                        self.chunks@[self.index + k]@
                    },
            )
        }
    }
}

impl<'a> ChunkedInput<'a> {
    #[verifier::type_invariant]
    spec fn inv(self) -> bool {
        &&& self.index <= self.chunks@.len()
        &&& self.index == self.chunks@.len() ==> self.offset == 0
        &&& self.index < self.chunks@.len() ==> self.offset <= self.chunks@[self.index as int]@
            .len()
    }

    /// Makes an input that hands out `chunks`, in order.
    pub fn new(chunks: &'a [&'a [u8]]) -> (r: ChunkedInput<'a>)
        ensures
            r@ == Seq::new(chunks@.len(), |k: int| chunks@[k]@),
    {
        let r = ChunkedInput { chunks, index: 0, offset: 0 };
        proof {
            if chunks@.len() > 0 {
                assert(chunks@[0]@.subrange(0, chunks@[0]@.len() as int) =~= chunks@[0]@);
            }
            assert(r@ =~= Seq::new(chunks@.len(), |k: int| chunks@[k]@));
        }
        r
    }

    /// Reads once into `buf`: puts the next chunk, or as much of its front as
    /// fits, at the front of `buf` and returns the number of bytes.  Returns 0
    /// where the input has ended.
    pub fn read(&mut self, buf: &mut [u8]) -> (n: usize)
        ensures
            n == next_read(old(self)@, old(buf)@.len() as int).len(),
            final(buf)@ == next_read(old(self)@, old(buf)@.len() as int) + old(buf)@.subrange(
                n as int,
                old(buf)@.len() as int,
            ),
            final(self)@ == after_read(old(self)@, old(buf)@.len() as int),
    {
        proof {
            use_type_invariant(&*self);
        }
        let room: usize = buf.len();
        if self.index >= self.chunks.len() || room == 0 {
            assert(buf@ =~= Seq::<u8>::empty() + old(buf)@.subrange(0, old(buf)@.len() as int));
            return 0;
        }
        let chunk: &[u8] = self.chunks[self.index];
        let left: usize = chunk.len() - self.offset;
        let n: usize = if left <= room {
            left
        } else {
            room
        };
        let from: usize = self.offset;
        let chunk_len: usize = chunk.len();
        let mut k: usize = 0;
        while k < n
            invariant
                chunk_len == chunk@.len(),
                k <= n,
                n <= buf@.len(),
                from + n <= chunk@.len(),
                buf@.len() == old(buf)@.len(),
                forall|m: int| 0 <= m < k ==> buf@[m] == chunk@[from + m],
                forall|m: int| k <= m < buf@.len() ==> buf@[m] == old(buf)@[m],
            decreases n - k,
        {
            buf[k] = chunk[from + k];
            k = k + 1;
        }
        let ghost before = self@;
        assert(before[0] =~= chunk@.subrange(from as int, chunk@.len() as int));
        if n == left && left > 0 {
            self.offset = 0;
            self.index = self.index + 1;
            proof {
                if self.index < self.chunks@.len() {
                    let c = self.chunks@[self.index as int]@;
                    assert(c.subrange(0, c.len() as int) =~= c);
                }
                assert(self@ =~= before.drop_first());
            }
        } else {
            self.offset = from + n;
            proof {
                if left > 0 {
                    let cut = seq![before[0].subrange(n as int, before[0].len() as int)]
                        + before.drop_first();
                    assert(self@[0] =~= cut[0]);
                    assert(self@ =~= cut);
                } else {
                    assert(self@ =~= before);
                }
            }
        }
        assert(buf@ =~= next_read(before, room as int) + old(buf)@.subrange(
            n as int,
            old(buf)@.len() as int,
        ));
        n
    }
}

} // verus!
