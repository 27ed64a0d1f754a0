//! Splitting a byte slice on a separator, one piece at a time.

use vstd::prelude::*;
use crate::search::{find_first, first_match, lemma_first_match_props, matches_at};

verus! {

/// The piece that comes first when `data` is split on `sep`: nothing if `data`
/// is empty, the bytes before the first separator if there is one, else all
/// of `data`.
pub open spec fn first_piece(data: Seq<u8>, sep: Seq<u8>) -> Option<Seq<u8>> {
    if data.len() == 0 {
        None
    } else {
        match first_match(data, sep) {
            Some(i) => Some(data.subrange(0, i)),
            None => Some(data),
        }
    }
}

/// What is left of `data` behind its first piece and the separator that ends
/// it.
pub open spec fn after_first_piece(data: Seq<u8>, sep: Seq<u8>) -> Seq<u8> {
    match first_match(data, sep) {
        Some(i) => data.subrange(i + sep.len(), data.len() as int),
        None => Seq::empty(),
    }
}

/// All the pieces of `data` split on `sep`, in order.
pub open spec fn pieces(data: Seq<u8>, sep: Seq<u8>) -> Seq<Seq<u8>>
    decreases data.len(),
{
    if data.len() == 0 || sep.len() == 0 {
        Seq::empty()
    } else {
        proof {
            lemma_first_match_props(data, sep);
        }
        seq![first_piece(data, sep).unwrap()] + pieces(after_first_piece(data, sep), sep)
    }
}

/// The state of a `SplitIterator`: the bytes not yet split, and the separator.
pub struct SplitIteratorView {
    pub data: Seq<u8>,
    pub sep: Seq<u8>,
}

/// Splits a byte slice on a separator without copying.  It hands out the
/// pieces one by one; after the last piece it hands out nothing.  To start
/// over, make a new one.
pub struct SplitIterator<'a> {
    data: &'a [u8],
    sep: &'a [u8],
}

impl<'a> View for SplitIterator<'a> {
    type V = SplitIteratorView;

    closed spec fn view(&self) -> SplitIteratorView {
        SplitIteratorView { data: self.data@, sep: self.sep@ }
    }
}

impl<'a> SplitIterator<'a> {
    #[verifier::type_invariant]
    spec fn inv(self) -> bool {
        self.sep@.len() > 0
    }

    /// Returns the next piece and steps behind the separator that ends it.
    /// Returns `None` once nothing is left.
    pub fn next(&mut self) -> (r: Option<&'a [u8]>)
        ensures
            old(self)@.sep.len() > 0,
            final(self)@.sep == old(self)@.sep,
            match first_piece(old(self)@.data, old(self)@.sep) {
                Some(piece) => r matches Some(p) && p@ == piece,
                None => r is None,
            },
            final(self)@.data == after_first_piece(old(self)@.data, old(self)@.sep),
            r is Some ==> final(self)@.data.len() < old(self)@.data.len(),
            r is None ==> final(self)@ == old(self)@,
    {
        proof {
            use_type_invariant(&*self);
            lemma_first_match_props(self.data@, self.sep@);
        }
        if self.data.len() == 0 {
            assert(self.data@ =~= Seq::<u8>::empty());
            return None;
        }
        let data: &'a [u8] = self.data;
        match find_first(data, self.sep) {
            Some(index) => {
                let result = vstd::slice::slice_subrange(data, 0, index);
                self.data = vstd::slice::slice_subrange(data, index + self.sep.len(), data.len());
                Some(result)
            },
            None => {
                self.data = vstd::slice::slice_subrange(data, 0, 0);
                assert(self.data@ =~= Seq::<u8>::empty());
                Some(data)
            },
        }
    }

    /// Returns all the pieces that are left, and leaves nothing.
    pub fn collect(&mut self) -> (r: Vec<&'a [u8]>)
        ensures
            r@.len() == pieces(old(self)@.data, old(self)@.sep).len(),
            forall|i: int| 0 <= i < r@.len() ==> (#[trigger] r@[i])@ == pieces(
                old(self)@.data,
                old(self)@.sep,
            )[i],
            final(self)@.sep == old(self)@.sep,
            final(self)@.data.len() == 0,
    {
        let mut out: Vec<&'a [u8]> = Vec::new();
        let ghost all = pieces(self@.data, self@.sep);
        loop
            invariant
                self@.sep == old(self)@.sep,
                all == pieces(old(self)@.data, old(self)@.sep),
                out@.len() <= all.len(),
                forall|i: int| 0 <= i < out@.len() ==> (#[trigger] out@[i])@ == all[i],
                all == Seq::new(out@.len(), |i: int| out@[i]@) + pieces(self@.data, self@.sep),
            ensures
                out@.len() == all.len(),
                forall|i: int| 0 <= i < out@.len() ==> (#[trigger] out@[i])@ == all[i],
                self@.sep == old(self)@.sep,
                self@.data.len() == 0,
            decreases self@.data.len(),
        {
            let ghost before = self@;
            let ghost done = Seq::new(out@.len(), |i: int| out@[i]@);
            match self.next() {
                Some(piece) => {
                    out.push(piece);
                    proof {
                        let done2 = Seq::new(out@.len(), |i: int| out@[i]@);
                        assert(pieces(before.data, before.sep) == seq![piece@] + pieces(
                            self@.data,
                            self@.sep,
                        ));
                        assert(done2 =~= done + seq![piece@]);
                        assert(all =~= done2 + pieces(self@.data, self@.sep));
                        assert(all[out@.len() - 1] == piece@);
                    }
                },
                None => {
                    proof {
                        assert(pieces(self@.data, self@.sep) =~= Seq::<Seq<u8>>::empty());
                        assert(all =~= done);
                    }
                    break ;
                },
            }
        }
        out
    }
}

/// Starts splitting `data` on `sep`, which must not be empty.
pub fn split_iterate<'a>(data: &'a [u8], sep: &'a [u8]) -> (r: SplitIterator<'a>)
    requires
        sep@.len() > 0,
    ensures
        r@ == (SplitIteratorView { data: data@, sep: sep@ }),
{
    SplitIterator { data, sep }
}

/// Once nothing is handed out, nothing is handed out again: the state that
/// `next` leaves behind its last piece has no first piece.
pub proof fn lemma_exhausted_stays_exhausted(data: Seq<u8>, sep: Seq<u8>)
    requires
        first_piece(data, sep) is None,
    ensures
        data.len() == 0,
        pieces(data, sep).len() == 0,
{
    lemma_first_match_props(data, sep);
}

/// Data in which the separator does not occur is a single piece, and empty
/// data has no piece at all.
pub proof fn lemma_pieces_without_separator(data: Seq<u8>, sep: Seq<u8>)
    requires
        sep.len() > 0,
        first_match(data, sep) is None,
    ensures
        pieces(data, sep) == if data.len() == 0 {
            Seq::<Seq<u8>>::empty()
        } else {
            seq![data]
        },
{
    if data.len() > 0 {
        assert(pieces(Seq::<u8>::empty(), sep) =~= Seq::<Seq<u8>>::empty());
        assert(pieces(data, sep) =~= seq![data]);
    }
}

/// `parts` with `sep` between any two of them.
pub open spec fn joined(parts: Seq<Seq<u8>>, sep: Seq<u8>) -> Seq<u8>
    decreases parts.len(),
{
    if parts.len() == 0 {
        Seq::empty()
    } else if parts.len() == 1 {
        parts[0]
    } else {
        parts[0] + sep + joined(parts.drop_first(), sep)
    }
}

/// Splitting loses nothing but a separator at the very end: the pieces of
/// `data`, put together again with the separator between them, are `data`, or
/// `data` without the separator that ends it.  And no piece holds the
/// separator.
pub proof fn lemma_pieces_join_to_data(data: Seq<u8>, sep: Seq<u8>)
    requires
        sep.len() > 0,
    ensures
        joined(pieces(data, sep), sep) == data || joined(pieces(data, sep), sep) + sep == data,
        forall|i: int|
            0 <= i < pieces(data, sep).len() ==> first_match(#[trigger] pieces(data, sep)[i], sep)
                is None,
    decreases data.len(),
{
    lemma_first_match_props(data, sep);
    if data.len() == 0 {
    } else {
        let piece = first_piece(data, sep).unwrap();
        let rest = after_first_piece(data, sep);
        let others = pieces(rest, sep);
        let all = pieces(data, sep);
        assert(all =~= seq![piece] + others);
        assert(all.drop_first() =~= others);
        lemma_pieces_join_to_data(rest, sep);
        lemma_first_match_props(piece, sep);
        match first_match(data, sep) {
            Some(at) => {
                if first_match(piece, sep) is Some {
                    let j = first_match(piece, sep).unwrap();
                    assert(data.subrange(j, j + sep.len()) =~= piece.subrange(j, j + sep.len()));
                    assert(matches_at(data, sep, j));
                    assert(false);
                }
                assert(data =~= piece + sep + rest);
                if others.len() == 0 {
                    assert(pieces(rest, sep).len() == 0);
                    assert(rest.len() == 0);
                    assert(joined(all, sep) + sep =~= data);
                } else {
                    if joined(others, sep) == rest {
                        assert(joined(all, sep) =~= data);
                    } else {
                        assert(joined(all, sep) + sep =~= data);
                    }
                }
            },
            None => {
                assert(others =~= Seq::<Seq<u8>>::empty());
                assert(piece == data);
            },
        }
        assert forall|i: int| 0 <= i < all.len() implies first_match(#[trigger] all[i], sep)
            is None by {
            if i > 0 {
                assert(all[i] == others[i - 1]);
            }
        }
    }
}

} // verus!
