//! Searching growing data for a separator without searching any byte twice.

use vstd::prelude::*;
use crate::search::{
    find_first, first_match, is_first_match, lemma_first_match_is, lemma_first_match_none,
    lemma_first_match_props, matches_at,
};

verus! {

/// Remembers how much of the data was already searched, so that the next
/// search of the same data, grown at its end, starts where a separator could
/// newly have appeared.  It borrows nothing between the calls.
pub struct NoBorrowCursor(usize);

impl NoBorrowCursor {
    /// The number of bytes that the last fruitless search has seen.
    pub closed spec fn searched(&self) -> nat {
        self.0 as nat
    }

    /// Where a search of data starts that is known to hold no separator
    /// within its first `searched` bytes.
    pub open spec fn start(searched: nat, sep_len: nat) -> nat {
        if searched < sep_len {
            0
        } else {
            (searched - sep_len) as nat
        }
    }

    /// Makes a cursor that has searched nothing.
    pub fn new() -> (r: NoBorrowCursor)
        ensures
            r.searched() == 0,
    {
        NoBorrowCursor(0)
    }

    /// Searches `data` for `sep`, from shortly before the end of what the last
    /// call searched.  Returns the data before the separator and the data
    /// behind it.  If the separator is not there, remembers the length of
    /// `data` and returns `None`.  `data` must be at least as long as it was
    /// at the last call, and `sep` must not be empty.
    pub fn split<'b>(&mut self, data: &'b [u8], sep: &[u8]) -> (r: Option<(&'b [u8], &'b [u8])>)
        requires
            old(self).searched() <= data@.len(),
            sep@.len() > 0,
        ensures
            ({
                let from = Self::start(old(self).searched(), sep@.len()) as int;
                match first_match(data@.subrange(from, data@.len() as int), sep@) {
                    Some(i) => r matches Some((before, after)) && before@ == data@.subrange(
                        0,
                        from + i,
                    ) && after@ == data@.subrange(from + i + sep@.len(), data@.len() as int)
                        && final(self).searched() == old(self).searched(),
                    None => r is None && final(self).searched() == data@.len(),
                }
            }),
    {
        let start: usize = if self.0 < sep.len() {
            0
        } else {
            self.0 - sep.len()
        };
        let region = vstd::slice::slice_subrange(data, start, data.len());
        match find_first(region, sep) {
            Some(region_index) => {
                let data_index: usize = start + region_index;
                proof {
                    lemma_first_match_props(region@, sep@);
                }
                Some(
                    (
                        vstd::slice::slice_subrange(data, 0, data_index),
                        vstd::slice::slice_subrange(data, data_index + sep.len(), data.len()),
                    ),
                )
            },
            None => {
                self.0 = data.len();
                None
            },
        }
    }
}

/// Nothing is missed by starting late: where the first `searched` bytes of
/// `data` hold no separator, a search from where `split` starts finds the
/// first separator of all of `data`, or none if there is none.
pub proof fn lemma_split_misses_nothing(data: Seq<u8>, sep: Seq<u8>, searched: nat)
    requires
        sep.len() > 0,
        searched <= data.len(),
        first_match(data.subrange(0, searched as int), sep) is None,
    ensures
        ({
            let from = NoBorrowCursor::start(searched, sep.len()) as int;
            match first_match(data.subrange(from, data.len() as int), sep) {
                Some(i) => first_match(data, sep) == Some(from + i),
                None => first_match(data, sep) is None,
            }
        }),
{
    let from = NoBorrowCursor::start(searched, sep.len()) as int;
    let seen = data.subrange(0, searched as int);
    let region = data.subrange(from, data.len() as int);
    lemma_first_match_props(seen, sep);
    lemma_first_match_props(region, sep);
    assert forall|j: int| 0 <= j < from implies !matches_at(data, sep, j) by {
        if matches_at(data, sep, j) {
            assert(seen.subrange(j, j + sep.len()) =~= data.subrange(j, j + sep.len()));
            assert(matches_at(seen, sep, j));
        }
    }
    match first_match(region, sep) {
        Some(i) => {
            assert(data.subrange(from + i, from + i + sep.len()) =~= region.subrange(
                i,
                i + sep.len(),
            ));
            assert forall|j: int| 0 <= j < from + i implies !matches_at(data, sep, j) by {
                if from <= j && matches_at(data, sep, j) {
                    assert(region.subrange(j - from, j - from + sep.len()) =~= data.subrange(
                        j,
                        j + sep.len(),
                    ));
                    assert(matches_at(region, sep, j - from));
                }
            }
            assert(is_first_match(data, sep, from + i));
            lemma_first_match_is(data, sep, from + i);
        },
        None => {
            assert forall|j: int| 0 <= j implies !matches_at(data, sep, j) by {
                if from <= j && matches_at(data, sep, j) {
                    assert(region.subrange(j - from, j - from + sep.len()) =~= data.subrange(
                        j,
                        j + sep.len(),
                    ));
                    assert(matches_at(region, sep, j - from));
                }
            }
            lemma_first_match_none(data, sep);
        },
    }
}

} // verus!
