//! Combinators on slices.

use vstd::prelude::*;

verus! {

/// Whether `l1` and `l2` have the same length and `pr` holds of each pair of
/// elements at the same position. `pr` is called on the pairs in order, until
/// it first answers `false`.
pub fn equal<T, U, F: Fn(&T, &U) -> bool>(pr: F, l1: &[T], l2: &[U]) -> (r: bool)
    requires
        l1@.len() == l2@.len() ==> forall|i: int|
            0 <= i < l1@.len() ==> call_requires(pr, (&l1@[i], &l2@[i])),
    ensures
        r ==> l1@.len() == l2@.len() && forall|i: int|
            0 <= i < l1@.len() ==> call_ensures(pr, (&l1@[i], &l2@[i]), true),
        !r ==> l1@.len() != l2@.len() || exists|i: int|
            0 <= i < l1@.len() && call_ensures(pr, (&l1@[i], &l2@[i]), false),
{
    if l1.len() != l2.len() {
        return false;
    }
    let n = l1.len();
    let mut i: usize = 0;
    while i < n
        invariant
            n == l1@.len(),
            n == l2@.len(),
            i <= n,
            forall|j: int| 0 <= j < n ==> call_requires(pr, (&l1@[j], &l2@[j])),
            forall|j: int| 0 <= j < i ==> call_ensures(pr, (&l1@[j], &l2@[j]), true),
        decreases n - i,
    {
        let b = pr(&l1[i], &l2[i]);
        if !b {
            assert(call_ensures(pr, (&l1@[i as int], &l2@[i as int]), false));
            return false;
        }
        i += 1;
    }
    true
}

} // verus!
