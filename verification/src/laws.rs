//! Laws that relate the operations of a matrix to one another.

use vstd::prelude::*;
use core::ops::Add;
use core::ops::Mul;
use crate::dot::column;
use crate::exact::{exact_dot, lemma_dot_exact, lemma_triple_product_entry, product_fits};
use crate::matrix::Matrix;
use crate::row_ops::swap_rows;
use crate::scalar::{equals_itself, is_comparison, scaling_round_trips, sum_commutes};

verus! {

/// `same_dimensions` gives the same answer for `(a, b)` and for `(b, a)`.
pub proof fn lemma_same_dimensions_symmetric<T>(a: &Matrix<T>, b: &Matrix<T>)
    ensures
        Matrix::same_dimensions(a, b) == Matrix::same_dimensions(b, a),
{
}

/// `equals` is reflexive on a matrix none of whose entries can compare
/// unequal to itself: every verdict on `(m, m)` is `true`.
pub proof fn lemma_equals_reflexive<T: Copy + PartialEq>(m: &Matrix<T>, verdict: bool)
    requires
        m.well_formed(),
        forall|i: int, j: int|
            0 <= i < m.rows && 0 <= j < m.cols ==> #[trigger] equals_itself(m@[i][j]),
        Matrix::is_equality_verdict(m, m, verdict),
    ensures
        verdict,
{
    if !verdict {
        let (i, j) = choose|i: int, j: int|
            0 <= i < m.rows && 0 <= j < m.cols && #[trigger] is_comparison(
                m@[i][j],
                m@[i][j],
                false,
            );
        assert(equals_itself(m@[i][j]));
    }
}

/// Addition of integers commutes.
pub proof fn lemma_integer_sum_commutes(x: i64, y: i64)
    ensures
        sum_commutes(x, y),
{
}

/// Addition commutes: for matrices of the same dimensions whose entries'
/// sums do not depend on the order of the operands, `a + b` and `b + a` are
/// the same matrix.
pub proof fn lemma_add_commutes<T: Copy + Add<Output = T>>(
    a: &Matrix<T>,
    b: &Matrix<T>,
    ab: &Matrix<T>,
    ba: &Matrix<T>,
)
    requires
        a.well_formed(),
        b.well_formed(),
        Matrix::same_dimensions(a, b),
        forall|i: int, j: int|
            0 <= i < a.rows && 0 <= j < a.cols ==> #[trigger] sum_commutes(a@[i][j], b@[i][j]),
        Matrix::is_sum_of(a, b, ab),
        Matrix::is_sum_of(b, a, ba),
    ensures
        ab@ == ba@,
        ab.rows == ba.rows,
        ab.cols == ba.cols,
{
    assert forall|i: int| 0 <= i < ab@.len() implies #[trigger] ab@[i] == ba@[i] by {
        assert forall|j: int| 0 <= j < ab@[i].len() implies #[trigger] ab@[i][j] == ba@[i][j] by {
            assert(sum_commutes(a@[i][j], b@[i][j]));
        }
    }
}

/// Addition of integer matrices of the same dimensions commutes.
pub proof fn lemma_integer_add_commutes(
    a: &Matrix<i64>,
    b: &Matrix<i64>,
    ab: &Matrix<i64>,
    ba: &Matrix<i64>,
)
    requires
        a.well_formed(),
        b.well_formed(),
        Matrix::same_dimensions(a, b),
        Matrix::is_sum_of(a, b, ab),
        Matrix::is_sum_of(b, a, ba),
    ensures
        ab@ == ba@,
        ab.rows == ba.rows,
        ab.cols == ba.cols,
{
    assert forall|i: int, j: int| 0 <= i < a.rows && 0 <= j < a.cols implies #[trigger] sum_commutes(
        a@[i][j],
        b@[i][j],
    ) by {
        lemma_integer_sum_commutes(a@[i][j], b@[i][j]);
    }
    lemma_add_commutes(a, b, ab, ba);
}

/// Swapping two rows twice restores the grid.
pub proof fn lemma_row_swap_involution<T>(grid: Seq<Seq<T>>, i: int, j: int)
    requires
        0 <= i < grid.len(),
        0 <= j < grid.len(),
    ensures
        swap_rows(swap_rows(grid, i, j), i, j) == grid,
{
}

/// Scaling a row by `s` and then by `t` restores the matrix, where
/// multiplying by `s` and then by `t` can only give back each entry of
/// that row.
pub proof fn lemma_row_scalar_round_trip<T: Copy + Mul<Output = T>>(
    before: &Matrix<T>,
    scaled: &Matrix<T>,
    after: &Matrix<T>,
    row: int,
    s: T,
    t: T,
)
    requires
        before.well_formed(),
        0 <= row < before.rows,
        forall|j: int|
            0 <= j < before.cols ==> #[trigger] scaling_round_trips(before@[row][j], s, t),
        before.is_row_scaled(row, s, scaled),
        scaled.is_row_scaled(row, t, after),
    ensures
        after@ == before@,
        after.rows == before.rows,
        after.cols == before.cols,
{
    assert forall|i: int| 0 <= i < after@.len() implies #[trigger] after@[i] == before@[i] by {
        if i == row {
            assert forall|j: int| 0 <= j < after@[i].len() implies #[trigger] after@[i][j]
                == before@[i][j] by {
                assert(scaling_round_trips(before@[row][j], s, t));
            }
            assert(after@[i] =~= before@[i]);
        } else {
            assert(after@[i] == scaled@[i]);
        }
    }
}

/// An entry of an integer product that stays in range is the exact inner
/// product of its row and column.
pub proof fn lemma_product_entry_exact(
    a: &Matrix<i64>,
    b: &Matrix<i64>,
    p: &Matrix<i64>,
    i: int,
    j: int,
)
    requires
        Matrix::is_product_of(a, b, p),
        product_fits(a, b),
        0 <= i < a.rows,
        0 <= j < b.cols,
    ensures
        p@[i][j] == exact_dot(a@[i], column(b@, j), a.cols as nat),
{
    lemma_dot_exact(a@[i], column(b@, j), a.cols as nat, p@[i][j]);
}

/// Multiplication of integer matrices is associative: where none of the four
/// products involved leaves the range of `i64`, `(a * b) * c` and
/// `a * (b * c)` are the same matrix.
pub proof fn lemma_multiply_associative(
    a: &Matrix<i64>,
    b: &Matrix<i64>,
    c: &Matrix<i64>,
    ab: &Matrix<i64>,
    bc: &Matrix<i64>,
    ab_c: &Matrix<i64>,
    a_bc: &Matrix<i64>,
)
    requires
        a.well_formed(),
        b.well_formed(),
        c.well_formed(),
        Matrix::can_multiply(a, b),
        Matrix::can_multiply(b, c),
        Matrix::is_product_of(a, b, ab),
        Matrix::is_product_of(b, c, bc),
        Matrix::is_product_of(ab, c, ab_c),
        Matrix::is_product_of(a, bc, a_bc),
        product_fits(a, b),
        product_fits(b, c),
        product_fits(ab, c),
        product_fits(a, bc),
    ensures
        ab_c@ == a_bc@,
        ab_c.rows == a_bc.rows,
        ab_c.cols == a_bc.cols,
{
    let n = a.cols as nat;
    let p = b.cols as nat;
    assert forall|i: int| 0 <= i < ab_c@.len() implies #[trigger] ab_c@[i] == a_bc@[i] by {
        assert forall|j: int| 0 <= j < ab_c@[i].len() implies #[trigger] ab_c@[i][j]
            == a_bc@[i][j] by {
            let x = a@[i];
            let y = column(c@, j);
            let left = ab@[i];
            let right = column(bc@, j);
            assert forall|l: int| 0 <= l < p implies #[trigger] left[l] == exact_dot(
                x,
                column(b@, l),
                n,
            ) by {
                lemma_product_entry_exact(a, b, ab, i, l);
            }
            assert forall|k: int| 0 <= k < n implies #[trigger] right[k] == exact_dot(
                b@[k],
                y,
                p,
            ) by {
                lemma_product_entry_exact(b, c, bc, k, j);
            }
            lemma_triple_product_entry(x, b@, y, left, right, n, p);
            lemma_product_entry_exact(ab, c, ab_c, i, j);
            lemma_product_entry_exact(a, bc, a_bc, i, j);
        }
    }
}

} // verus!
