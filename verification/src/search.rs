//! Finding the first occurrence of a byte string inside another.

use vstd::prelude::*;

verus! {

/// `needle` occurs in `hay` at offset `i`.
pub open spec fn matches_at(hay: Seq<u8>, needle: Seq<u8>, i: int) -> bool {
    &&& 0 <= i
    &&& i + needle.len() <= hay.len()
    &&& hay.subrange(i, i + needle.len()) == needle
}

/// `needle` occurs in `hay` at offset `i` and at no smaller offset.
pub open spec fn is_first_match(hay: Seq<u8>, needle: Seq<u8>, i: int) -> bool {
    &&& matches_at(hay, needle, i)
    &&& forall|j: int| 0 <= j < i ==> !matches_at(hay, needle, j)
}

/// The smallest offset at which `needle` occurs in `hay`, if it occurs at all.
pub open spec fn first_match(hay: Seq<u8>, needle: Seq<u8>) -> Option<int> {
    if exists|i: int| is_first_match(hay, needle, i) {
        Some(choose|i: int| is_first_match(hay, needle, i))
    } else {
        None
    }
}

/// There is only one first occurrence.
pub proof fn lemma_first_match_is(hay: Seq<u8>, needle: Seq<u8>, i: int)
    requires
        is_first_match(hay, needle, i),
    ensures
        first_match(hay, needle) == Some(i),
{
    let k = choose|k: int| is_first_match(hay, needle, k);
    if k < i {
        assert(!matches_at(hay, needle, k));
    } else if i < k {
        assert(!matches_at(hay, needle, i));
    }
}

/// Where `needle` occurs nowhere, there is no first occurrence.
pub proof fn lemma_first_match_none(hay: Seq<u8>, needle: Seq<u8>)
    requires
        forall|j: int| 0 <= j ==> !matches_at(hay, needle, j),
    ensures
        first_match(hay, needle) is None,
{
    assert forall|i: int| !is_first_match(hay, needle, i) by {
        if 0 <= i {
            assert(!matches_at(hay, needle, i));
        }
    }
}

/// What `first_match` returns is an occurrence with none before it, and
/// `None` means that there is no occurrence.
pub proof fn lemma_first_match_props(hay: Seq<u8>, needle: Seq<u8>)
    ensures
        match first_match(hay, needle) {
            Some(i) => is_first_match(hay, needle, i),
            None => forall|j: int| !matches_at(hay, needle, j),
        },
{
    if first_match(hay, needle) is None {
        assert forall|j: int| !matches_at(hay, needle, j) by {
            if matches_at(hay, needle, j) {
                lemma_least_match(hay, needle, j);
            }
        }
    }
}

/// Where `needle` occurs at `j`, it has a first occurrence at or before `j`.
proof fn lemma_least_match(hay: Seq<u8>, needle: Seq<u8>, j: int)
    requires
        matches_at(hay, needle, j),
    ensures
        exists|i: int| 0 <= i <= j && is_first_match(hay, needle, i),
    decreases j,
{
    if exists|k: int| 0 <= k < j && matches_at(hay, needle, k) {
        let k = choose|k: int| 0 <= k < j && matches_at(hay, needle, k);
        lemma_least_match(hay, needle, k);
        let i = choose|i: int| 0 <= i <= k && is_first_match(hay, needle, i);
        assert(0 <= i <= j && is_first_match(hay, needle, i));
    } else {
        assert(is_first_match(hay, needle, j));
    }
}

/// Whether `needle` occurs in `hay` at offset `at`.
fn window_matches(hay: &[u8], needle: &[u8], at: usize) -> (r: bool)
    requires
        at + needle@.len() <= hay@.len(),
    ensures
        r == matches_at(hay@, needle@, at as int),
{
    let n: usize = needle.len();
    let hay_len: usize = hay.len();
    let mut k: usize = 0;
    while k < n
        invariant
            n == needle@.len(),
            hay_len == hay@.len(),
            at + n <= hay@.len(),
            k <= n,
            forall|m: int| 0 <= m < k ==> hay@[at + m] == needle@[m],
        decreases n - k,
    {
        if hay[at + k] != needle[k] {
            proof {
                let w = hay@.subrange(at as int, at + n);
                assert(w[k as int] == hay@[at + k]);
            }
            return false;
        }
        k = k + 1;
    }
    assert(hay@.subrange(at as int, at + n) =~= needle@);
    true
}

/// Returns the smallest offset at which `needle` occurs in `hay`.
pub fn find_first(hay: &[u8], needle: &[u8]) -> (r: Option<usize>)
    requires
        needle@.len() > 0,
    ensures
        r is Some <==> first_match(hay@, needle@) is Some,
        r is Some ==> r.unwrap() as int == first_match(hay@, needle@).unwrap(),
{
    let n: usize = needle.len();
    if hay.len() < n {
        proof {
            lemma_first_match_none(hay@, needle@);
        }
        return None;
    }
    let last: usize = hay.len() - n;
    let mut i: usize = 0;
    while i <= last
        invariant
            n == needle@.len(),
            last + n == hay@.len(),
            n > 0,
            hay@.len() <= usize::MAX,
            i <= last + 1,
            forall|j: int| 0 <= j < i ==> !matches_at(hay@, needle@, j),
        decreases last + 1 - i,
    {
        if window_matches(hay, needle, i) {
            proof {
                lemma_first_match_is(hay@, needle@, i as int);
            }
            return Some(i);
        }
        i = i + 1;
    }
    proof {
        lemma_first_match_none(hay@, needle@);
    }
    None
}

} // verus!
