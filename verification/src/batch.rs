//! Element-wise evaluation of a two-argument function over parallel
//! sequences.

use vstd::prelude::*;
use crate::review::shorter;

verus! {

/// Applies `f` to the two sequences position by position. The result has
/// one entry per pair, in order, and each entry is what a single call of `f`
/// on that pair gives; no entry depends on another. Where one sequence is
/// longer, what has no partner is left out.
pub fn map_pairs<A, B, C, F: Fn(&A, &B) -> C>(left: &Vec<A>, right: &Vec<B>, f: F) -> (out: Vec<C>)
    requires
        forall|i: int|
            0 <= i < shorter(left@.len() as int, right@.len() as int) ==> call_requires(
                f,
                (&left@[i], &right@[i]),
            ),
    ensures
        out@.len() == shorter(left@.len() as int, right@.len() as int),
        forall|i: int|
            0 <= i < out@.len() ==> call_ensures(f, (&left@[i], &right@[i]), #[trigger] out@[i]),
{
    let count: usize = if left.len() <= right.len() {
        left.len()
    } else {
        right.len()
    };
    let mut out: Vec<C> = Vec::new();
    let mut i: usize = 0;
    while i < count
        invariant
            i <= count,
            count as int == shorter(left@.len() as int, right@.len() as int),
            out@.len() == i,
            forall|j: int|
                0 <= j < count ==> call_requires(f, (&left@[j], &right@[j])),
            forall|j: int|
                0 <= j < i ==> call_ensures(f, (&left@[j], &right@[j]), #[trigger] out@[j]),
        decreases count - i,
    {
        let value = f(&left[i], &right[i]);
        out.push(value);
        i += 1;
    }
    out
}

} // verus!
