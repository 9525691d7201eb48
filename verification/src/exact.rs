//! Inner products of machine integers, computed without overflow.
//!
//! For `i64` entries every operator has one outcome. As long as no term and
//! no partial sum leaves the range of `i64`, an accumulated inner product is
//! the mathematical sum of its terms.

use vstd::prelude::*;
use crate::dot::{column, dot_permitted, is_dot, step_permitted};
use crate::matrix::Matrix;
use crate::scalar::{is_product, is_sum, permits_sum};
use crate::sums::{lemma_sum_congruent, lemma_sum_exchange, lemma_sum_scaled, sum};

verus! {

/// The sum of the first `n` terms `x[k] * y[k]`, as a mathematical integer.
pub open spec fn exact_dot(x: Seq<i64>, y: Seq<i64>, n: nat) -> int
    decreases n,
{
    if n == 0 {
        0
    } else {
        exact_dot(x, y, (n - 1) as nat) + x[n - 1] * y[n - 1]
    }
}

/// `v` is a value of `i64`.
pub open spec fn in_range(v: int) -> bool {
    i64::MIN <= v <= i64::MAX
}

/// Term `k` and the sum of the terms up to and including it are values of `i64`.
pub open spec fn step_fits(x: Seq<i64>, y: Seq<i64>, k: nat) -> bool {
    in_range(x[k as int] * y[k as int]) && in_range(exact_dot(x, y, k + 1))
}

/// No term and no partial sum of the first `n` terms leaves the range of `i64`.
pub open spec fn dot_fits(x: Seq<i64>, y: Seq<i64>, n: nat) -> bool {
    forall|k: nat| k < n ==> #[trigger] step_fits(x, y, k)
}

/// Computing `a * b` never leaves the range of `i64`, at any entry.
pub open spec fn product_fits(a: &Matrix<i64>, b: &Matrix<i64>) -> bool {
    forall|i: int, j: int|
        0 <= i < a.rows && 0 <= j < b.cols ==> dot_fits(
            #[trigger] a@[i],
            #[trigger] column(b@, j),
            a.cols as nat,
        )
}

/// An accumulation that stays in range ends in the exact sum of its terms.
pub proof fn lemma_dot_exact(x: Seq<i64>, y: Seq<i64>, n: nat, r: i64)
    requires
        dot_fits(x, y, n),
        is_dot(x, y, n, r),
    ensures
        r == exact_dot(x, y, n),
    decreases n,
{
    if n > 0 {
        let m = (n - 1) as nat;
        let (s, t) = choose|s: i64, t: i64|
            #![trigger is_sum(s, t, r)]
            is_dot(x, y, m, s) && is_product(x[n - 1], y[n - 1], t) && is_sum(s, t, r);
        assert(dot_fits(x, y, m));
        lemma_dot_exact(x, y, m, s);
        assert(step_fits(x, y, m));
    }
}

/// An accumulation that stays in range is accepted at every step.
pub proof fn lemma_fits_permits(x: Seq<i64>, y: Seq<i64>, n: nat)
    requires
        dot_fits(x, y, n),
    ensures
        dot_permitted(x, y, n),
{
    assert forall|k: nat| k < n implies #[trigger] step_permitted(x, y, k) by {
        assert(step_fits(x, y, k));
        assert forall|s: i64, t: i64|
            #![trigger is_dot(x, y, k, s), is_product(x[k as int], y[k as int], t)]
            is_dot(x, y, k, s) && is_product(x[k as int], y[k as int], t) implies permits_sum(
            s,
            t,
        ) by {
            assert(dot_fits(x, y, k));
            lemma_dot_exact(x, y, k, s);
        }
    }
}

/// A product that stays in range meets the precondition of `multiply`.
pub proof fn lemma_product_fits_permits(a: &Matrix<i64>, b: &Matrix<i64>)
    requires
        product_fits(a, b),
    ensures
        Matrix::product_permitted(a, b),
{
    assert forall|i: int, j: int| 0 <= i < a.rows && 0 <= j < b.cols implies dot_permitted(
        #[trigger] a@[i],
        #[trigger] column(b@, j),
        a.cols as nat,
    ) by {
        lemma_fits_permits(a@[i], column(b@, j), a.cols as nat);
    }
}

/// The exact inner product is the sum of its terms.
pub proof fn lemma_exact_dot_is_sum(x: Seq<i64>, y: Seq<i64>, n: nat)
    ensures
        exact_dot(x, y, n) == sum(|k: int| x[k] * y[k], n),
    decreases n,
{
    if n > 0 {
        lemma_exact_dot_is_sum(x, y, (n - 1) as nat);
    }
}

/// One entry of a triple product, taken in either grouping: with `left[l]`
/// the inner product of `x` and column `l` of `middle`, and `right[k]` the
/// inner product of row `k` of `middle` and `y`, the inner product of `left`
/// and `y` is the inner product of `x` and `right`.
pub proof fn lemma_triple_product_entry(
    x: Seq<i64>,
    middle: Seq<Seq<i64>>,
    y: Seq<i64>,
    left: Seq<i64>,
    right: Seq<i64>,
    n: nat,
    p: nat,
)
    requires
        middle.len() == n,
        forall|l: int| 0 <= l < p ==> #[trigger] left[l] == exact_dot(x, column(middle, l), n),
        forall|k: int| 0 <= k < n ==> #[trigger] right[k] == exact_dot(middle[k], y, p),
    ensures
        exact_dot(left, y, p) == exact_dot(x, right, n),
{
    let term = |k: int, l: int| x[k] * middle[k][l] * y[l];
    let grouped_left = |l: int| left[l] * y[l];
    let grouped_right = |k: int| x[k] * right[k];
    let by_columns = |l: int| sum(|k: int| term(k, l), n);
    let by_rows = |k: int| sum(|l: int| term(k, l), p);

    assert forall|l: int| 0 <= l < p implies #[trigger] grouped_left(l) == by_columns(l) by {
        let inner = |k: int| x[k] * column(middle, l)[k];
        let scaled = |k: int| inner(k) * y[l];
        lemma_exact_dot_is_sum(x, column(middle, l), n);
        lemma_sum_scaled(inner, y[l] as int, n);
        assert forall|k: int| 0 <= k < n implies #[trigger] scaled(k) == term(k, l) by {}
        lemma_sum_congruent(scaled, |k: int| term(k, l), n);
    }
    assert forall|k: int| 0 <= k < n implies #[trigger] grouped_right(k) == by_rows(k) by {
        let inner = |l: int| middle[k][l] * y[l];
        let scaled = |l: int| inner(l) * x[k];
        lemma_exact_dot_is_sum(middle[k], y, p);
        lemma_sum_scaled(inner, x[k] as int, p);
        assert forall|l: int| 0 <= l < p implies #[trigger] scaled(l) == term(k, l) by {
            assert(middle[k][l] * y[l] * x[k] == x[k] * middle[k][l] * y[l]) by (nonlinear_arith);
        }
        lemma_sum_congruent(scaled, |l: int| term(k, l), p);
        assert(x[k] * right[k] == right[k] * x[k]) by (nonlinear_arith);
    }
    lemma_exact_dot_is_sum(left, y, p);
    lemma_sum_congruent(grouped_left, by_columns, p);
    lemma_exact_dot_is_sum(x, right, n);
    lemma_sum_congruent(grouped_right, by_rows, n);
    lemma_sum_exchange(term, n, p);
}

} // verus!
