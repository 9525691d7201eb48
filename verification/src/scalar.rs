//! What is known about the arithmetic of a matrix's entries.
//!
//! Entries are added, multiplied and compared with the operators of their own
//! type. Whether such an operator returns one fixed value for given operands
//! is up to the type: machine integers do, floating point makes no such
//! promise. The predicates here therefore relate operands to the outcomes the
//! type allows, and to the operand pairs it accepts, rather than naming a
//! single result.

use vstd::prelude::*;
use core::ops::Add;
use core::ops::Mul;

verus! {

/// The entry type accepts the addition `x + y`.
pub open spec fn permits_sum<T: Add<Output = T>>(x: T, y: T) -> bool {
    call_requires(T::add, (x, y))
}

/// `r` is an outcome of `x + y`.
pub open spec fn is_sum<T: Add<Output = T>>(x: T, y: T, r: T) -> bool {
    call_ensures(T::add, (x, y), r)
}

/// The entry type accepts the multiplication `x * y`.
pub open spec fn permits_product<T: Mul<Output = T>>(x: T, y: T) -> bool {
    call_requires(T::mul, (x, y))
}

/// `r` is an outcome of `x * y`.
pub open spec fn is_product<T: Mul<Output = T>>(x: T, y: T, r: T) -> bool {
    call_ensures(T::mul, (x, y), r)
}

/// `z` is a default value of the entry type: the zero that sums start from.
pub open spec fn is_zero<T: Default>(z: T) -> bool {
    call_ensures(T::default, (), z)
}

/// `verdict` is an outcome of the comparison `x == y`.
pub open spec fn is_comparison<T: PartialEq>(x: T, y: T, verdict: bool) -> bool {
    call_ensures(T::eq, (&x, &y), verdict)
}

/// `x` cannot compare unequal to itself.
pub open spec fn equals_itself<T: PartialEq>(x: T) -> bool {
    !is_comparison(x, x, false)
}

/// The sums `x + y` and `y + x` cannot differ.
pub open spec fn sum_commutes<T: Add<Output = T>>(x: T, y: T) -> bool {
    forall|r1: T, r2: T| #[trigger] is_sum(x, y, r1) && #[trigger] is_sum(y, x, r2) ==> r1 == r2
}

/// Multiplying `x` by `s` and the outcome by `t` can only give `x` back.
pub open spec fn scaling_round_trips<T: Mul<Output = T>>(x: T, s: T, t: T) -> bool {
    forall|p: T, q: T| #[trigger] is_product(x, s, p) && #[trigger] is_product(p, t, q) ==> q == x
}

} // verus!
