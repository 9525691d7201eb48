//! Inner products, as a matrix product accumulates them.
//!
//! An entry of a product is the sum of the terms `x[k] * y[k]`, taken in
//! ascending `k` and added one by one onto a zero. The predicates here
//! describe the values such an accumulation can end in, and the operand
//! vectors on which every one of its steps is accepted by the entry type.

use vstd::prelude::*;
use core::ops::Add;
use core::ops::Mul;
use crate::scalar::{is_product, is_sum, is_zero, permits_product, permits_sum};

verus! {

/// Column `j` of a grid of rows, from the top row down.
pub open spec fn column<T>(grid: Seq<Seq<T>>, j: int) -> Seq<T> {
    Seq::new(grid.len(), |k: int| grid[k][j])
}

/// `r` is an outcome of accumulating the first `n` terms `x[k] * y[k]`:
/// a zero for no terms, else an outcome of adding the product of the last
/// pair to an outcome for the terms before it.
pub open spec fn is_dot<T: Add<Output = T> + Mul<Output = T> + Default>(
    x: Seq<T>,
    y: Seq<T>,
    n: nat,
    r: T,
) -> bool
    decreases n,
{
    if n == 0 {
        is_zero(r)
    } else {
        exists|s: T, t: T|
            #![trigger is_sum(s, t, r)]
            is_dot(x, y, (n - 1) as nat, s) && is_product(x[n - 1], y[n - 1], t) && is_sum(s, t, r)
    }
}

/// Step `k` of the accumulation is accepted: the product `x[k] * y[k]` is,
/// and so is adding any outcome of it to any outcome of the steps before.
pub open spec fn step_permitted<T: Add<Output = T> + Mul<Output = T> + Default>(
    x: Seq<T>,
    y: Seq<T>,
    k: nat,
) -> bool {
    &&& permits_product(x[k as int], y[k as int])
    &&& forall|s: T, t: T|
        #![trigger is_dot(x, y, k, s), is_product(x[k as int], y[k as int], t)]
        is_dot(x, y, k, s) && is_product(x[k as int], y[k as int], t) ==> permits_sum(s, t)
}

/// Every step of accumulating the first `n` terms is accepted.
pub open spec fn dot_permitted<T: Add<Output = T> + Mul<Output = T> + Default>(
    x: Seq<T>,
    y: Seq<T>,
    n: nat,
) -> bool {
    forall|k: nat| k < n ==> #[trigger] step_permitted(x, y, k)
}

} // verus!
