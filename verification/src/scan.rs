use vstd::prelude::*;

verus! {

/// `pat` occurs in `hay` as a contiguous run starting at offset `i`.
pub open spec fn match_at(hay: Seq<u8>, pat: Seq<u8>, i: int) -> bool {
    &&& 0 <= i
    &&& i + pat.len() <= hay.len()
    &&& hay.subrange(i, i + pat.len()) == pat
}

/// `pat` occurs somewhere in `hay` as a contiguous run of bytes.
pub open spec fn contains_bytes(hay: Seq<u8>, pat: Seq<u8>) -> bool {
    exists|i: int| match_at(hay, pat, i)
}

/// An empty pattern matches any haystack (at offset 0), and a pattern
/// longer than the haystack never matches.
pub proof fn lemma_contains_trivial(hay: Seq<u8>, pat: Seq<u8>)
    ensures
        pat.len() == 0 ==> contains_bytes(hay, pat),
        pat.len() > hay.len() ==> !contains_bytes(hay, pat),
{
    if pat.len() == 0 {
        assert(hay.subrange(0, 0) =~= pat);
        assert(match_at(hay, pat, 0));
    }
    if pat.len() > hay.len() {
        assert forall|i: int| !match_at(hay, pat, i) by {}
    }
}

} // verus!
