//! Facts about sequences that the stores rely on.

use vstd::prelude::*;

verus! {

/// A sequence that begins with `middle`, which itself begins with `start`,
/// begins with `start`.
pub proof fn lemma_prefix_of_prefix<T>(start: Seq<T>, middle: Seq<T>, whole: Seq<T>)
    requires
        start.len() <= middle.len() <= whole.len(),
        middle.subrange(0, start.len() as int) == start,
        whole.subrange(0, middle.len() as int) == middle,
    ensures
        whole.subrange(0, start.len() as int) == start,
{
    assert forall|j: int| 0 <= j < start.len() implies whole[j] == start[j] by {
        assert(whole.subrange(0, middle.len() as int)[j] == whole[j]);
        assert(middle.subrange(0, start.len() as int)[j] == middle[j]);
    }
    assert(whole.subrange(0, start.len() as int) =~= start);
}

} // verus!
