//! Walking two lists in lock step.
use vstd::prelude::*;

verus! {

/// Pairs up two lists of the same length.
///
/// Calls `itertools::zip_eq`, which hands out the two lists' items in lock step and panics where
/// one list ends before the other: what is claimed is that, for lists of the same length, the
/// `k`-th pair is made of the `k`-th items.
#[verifier::external_body]
pub(crate) fn zip_eq<A, B>(left: Vec<A>, right: Vec<B>) -> (pairs: Vec<(A, B)>)
    requires
        left@.len() == right@.len(),
    ensures
        pairs@.len() == left@.len(),
        forall|k: int| 0 <= k < left@.len() ==> #[trigger] pairs@[k] == (left@[k], right@[k]),
{
    itertools::zip_eq(left, right).collect()
}

} // verus!
