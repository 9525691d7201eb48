//! Finite sums of integer terms, and the identities that reorder them.

use vstd::prelude::*;

verus! {

/// `f(0) + f(1) + ... + f(n - 1)`.
pub open spec fn sum(f: spec_fn(int) -> int, n: nat) -> int
    decreases n,
{
    if n == 0 {
        0
    } else {
        sum(f, (n - 1) as nat) + f(n - 1)
    }
}

/// Sums of terms that agree below `n` agree.
pub proof fn lemma_sum_congruent(f: spec_fn(int) -> int, g: spec_fn(int) -> int, n: nat)
    requires
        forall|k: int| 0 <= k < n ==> #[trigger] f(k) == g(k),
    ensures
        sum(f, n) == sum(g, n),
    decreases n,
{
    if n > 0 {
        lemma_sum_congruent(f, g, (n - 1) as nat);
    }
}

/// A sum of sums, term by term, is the sum of the two sums.
pub proof fn lemma_sum_of_sums(f: spec_fn(int) -> int, g: spec_fn(int) -> int, n: nat)
    ensures
        sum(|k: int| f(k) + g(k), n) == sum(f, n) + sum(g, n),
    decreases n,
{
    if n > 0 {
        lemma_sum_of_sums(f, g, (n - 1) as nat);
    }
}

/// A factor common to every term can be taken out of the sum.
pub proof fn lemma_sum_scaled(f: spec_fn(int) -> int, c: int, n: nat)
    ensures
        sum(|k: int| f(k) * c, n) == sum(f, n) * c,
    decreases n,
{
    if n > 0 {
        let m = (n - 1) as nat;
        lemma_sum_scaled(f, c, m);
        assert((sum(f, m) + f(n - 1)) * c == sum(f, m) * c + f(n - 1) * c) by (nonlinear_arith);
    }
}

/// A double sum can be taken in either order.
pub proof fn lemma_sum_exchange(f: spec_fn(int, int) -> int, n: nat, p: nat)
    ensures
        sum(|k: int| sum(|l: int| f(k, l), p), n) == sum(|l: int| sum(|k: int| f(k, l), n), p),
    decreases n,
{
    let by_rows = |k: int| sum(|l: int| f(k, l), p);
    let by_columns = |l: int| sum(|k: int| f(k, l), n);
    if n == 0 {
        let zero = |l: int| 0int;
        assert forall|l: int| 0 <= l < p implies #[trigger] by_columns(l) == zero(l) by {}
        lemma_sum_congruent(by_columns, zero, p);
        lemma_sum_zero(p);
    } else {
        let m = (n - 1) as nat;
        lemma_sum_exchange(f, m, p);
        let shorter = |l: int| sum(|k: int| f(k, l), m);
        let last = |l: int| f(n - 1, l);
        let both = |l: int| shorter(l) + last(l);
        assert forall|l: int| 0 <= l < p implies #[trigger] by_columns(l) == both(l) by {}
        lemma_sum_congruent(by_columns, both, p);
        lemma_sum_of_sums(shorter, last, p);
    }
}

/// A sum of zeros is zero.
pub proof fn lemma_sum_zero(n: nat)
    ensures
        sum(|k: int| 0int, n) == 0,
    decreases n,
{
    if n > 0 {
        lemma_sum_zero((n - 1) as nat);
    }
}

} // verus!
