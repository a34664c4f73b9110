//! Small shared facts about sequences.
use vstd::prelude::*;

verus! {

/// Pushing onto a sequence keeps everything it already held.
pub(crate) proof fn lemma_push_keeps_contains(s: Seq<usize>, v: usize, x: usize)
    requires
        s.contains(x),
    ensures
        s.push(v).contains(x),
{
    let i = choose|i: int| 0 <= i < s.len() && s[i] == x;
    assert(s.push(v)[i] == x);
}

} // verus!
