//! Picking from a list by index.

use vstd::prelude::*;

verus! {

/// `picked` lists, in rising order and once each, exactly the indices below
/// `n` that `wanted` holds of.
pub open spec fn is_selection(picked: Seq<usize>, n: int, wanted: spec_fn(int) -> bool) -> bool {
    &&& forall|a: int, b: int| 0 <= a < b < picked.len() ==> picked[a] < picked[b]
    &&& forall|a: int| 0 <= a < picked.len() ==> picked[a] < n && wanted(#[trigger] picked[a] as int)
    &&& forall|i: int| 0 <= i < n && #[trigger] wanted(i) ==> picked.contains(i as usize)
}

/// A selection below `n` with `n` added is a selection below `n + 1`, if
/// `wanted` holds of `n`.
pub proof fn lemma_selection_take(picked: Seq<usize>, n: int, wanted: spec_fn(int) -> bool)
    requires
        is_selection(picked, n, wanted),
        0 <= n <= usize::MAX,
        wanted(n),
    ensures
        is_selection(picked.push(n as usize), n + 1, wanted),
{
    let next = picked.push(n as usize);
    assert forall|i: int| 0 <= i < n + 1 && #[trigger] wanted(i) implies next.contains(
        i as usize,
    ) by {
        if i < n {
            let a = choose|a: int| 0 <= a < picked.len() && picked[a] == i as usize;
            assert(next[a] == i as usize);
        } else {
            assert(next[picked.len() as int] == i as usize);
        }
    }
}

/// A selection below `n` is a selection below `n + 1`, if `wanted` does not
/// hold of `n`.
pub proof fn lemma_selection_skip(picked: Seq<usize>, n: int, wanted: spec_fn(int) -> bool)
    requires
        is_selection(picked, n, wanted),
        0 <= n,
        !wanted(n),
    ensures
        is_selection(picked, n + 1, wanted),
{
}

} // verus!
