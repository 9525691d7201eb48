//! The matrix type, its shape predicates, equality and arithmetic.

use vstd::prelude::*;
use core::ops::Add;
use core::ops::Mul;
use crate::dot::{column, dot_permitted, is_dot, step_permitted};
use crate::error::MatrixError;
use crate::scalar::{is_comparison, is_product, is_sum, permits_sum};

verus! {

/// A dense matrix: `rows` rows of `cols` entries each, stored row by row.
///
/// The fields are public and nothing checks them on construction. Every
/// operation that reads entries asks for [`Matrix::well_formed`].
#[derive(Clone, Debug)]
pub struct Matrix<T> {
    pub values: Vec<Vec<T>>,
    pub rows: usize,
    pub cols: usize,
}

impl<T> View for Matrix<T> {
    type V = Seq<Seq<T>>;

    /// The entries as a sequence of rows.
    open spec fn view(&self) -> Seq<Seq<T>> {
        Seq::new(self.values@.len(), |i: int| self.values@[i]@)
    }
}

/// Every row of the grid is as long as its first row.
pub open spec fn rectangular<T>(values: Seq<Vec<T>>) -> bool {
    forall|i: int| 0 <= i < values.len() ==> (#[trigger] values[i])@.len() == values[0]@.len()
}

/// The length of the first row, or zero where there is no row.
pub open spec fn first_row_len<T>(values: Seq<Vec<T>>) -> nat {
    if values.len() == 0 {
        0
    } else {
        values[0]@.len()
    }
}

impl<T> Matrix<T> {
    /// The stored grid has exactly `rows` rows, each of exactly `cols` entries.
    pub open spec fn well_formed(&self) -> bool {
        &&& self.values@.len() == self.rows
        &&& forall|i: int| 0 <= i < self.rows ==> (#[trigger] self.values@[i])@.len() == self.cols
    }

    /// Checks that the stored grid has the declared dimensions.
    pub fn is_well_formed(&self) -> (ok: bool)
        ensures
            ok == self.well_formed(),
    {
        if self.values.len() != self.rows {
            return false;
        }
        for i in 0..self.rows
            invariant
                self.values@.len() == self.rows,
                forall|a: int| 0 <= a < i ==> (#[trigger] self.values@[a])@.len() == self.cols,
        {
            if self.values[i].len() != self.cols {
                return false;
            }
        }
        true
    }

    /// Builds a matrix from its rows and derives its dimensions from them:
    /// as many rows as given, and as many columns as the first row is long
    /// (none for an empty grid). Rows of differing lengths are rejected.
    pub fn from_rows(values: Vec<Vec<T>>) -> (result: Option<Matrix<T>>)
        ensures
            result is Some <==> rectangular(values@),
            result matches Some(m) ==> m.well_formed() && m.values == values,
            result matches Some(m) ==> m.rows == values@.len(),
            result matches Some(m) ==> m.cols == first_row_len(values@),
    {
        let rows = values.len();
        let cols = if rows == 0 { 0 } else { values[0].len() };
        let matrix = Matrix { values, rows, cols };
        if matrix.is_well_formed() {
            Some(matrix)
        } else {
            None
        }
    }

    /// Both matrices declare the same number of rows and of columns.
    pub open spec fn spec_same_dimensions(m1: &Matrix<T>, m2: &Matrix<T>) -> bool {
        m1.rows == m2.rows && m1.cols == m2.cols
    }

    /// The product `m1 * m2` is defined: `m1` has as many columns as `m2` has rows.
    pub open spec fn spec_can_multiply(m1: &Matrix<T>, m2: &Matrix<T>) -> bool {
        m1.cols == m2.rows
    }

    /// Checks if the dimensions of two matrices are the same.
    #[verifier::when_used_as_spec(spec_same_dimensions)]
    pub fn same_dimensions(m1: &Matrix<T>, m2: &Matrix<T>) -> (same: bool)
        ensures
            same == (m1.rows == m2.rows && m1.cols == m2.cols),
    {
        m1.rows == m2.rows && m1.cols == m2.cols
    }

    /// Checks if two matrices can be multiplied, in the order given.
    #[verifier::when_used_as_spec(spec_can_multiply)]
    pub fn can_multiply(m1: &Matrix<T>, m2: &Matrix<T>) -> (compatible: bool)
        ensures
            compatible == (m1.cols == m2.rows),
    {
        m1.cols == m2.rows
    }
}

impl<T: Copy + PartialEq> Matrix<T> {
    /// `verdict` is an outcome of comparing `a` with `b` entry by entry:
    /// `true` only if the dimensions agree and every pair of entries can
    /// compare equal, `false` only if the dimensions differ or some pair of
    /// entries can compare unequal.
    pub open spec fn is_equality_verdict(a: &Matrix<T>, b: &Matrix<T>, verdict: bool) -> bool {
        if verdict {
            &&& Self::same_dimensions(a, b)
            &&& forall|i: int, j: int|
                0 <= i < a.rows && 0 <= j < a.cols ==> #[trigger] is_comparison(
                    a@[i][j],
                    b@[i][j],
                    true,
                )
        } else {
            ||| !Self::same_dimensions(a, b)
            ||| exists|i: int, j: int|
                0 <= i < a.rows && 0 <= j < a.cols && #[trigger] is_comparison(
                    a@[i][j],
                    b@[i][j],
                    false,
                )
        }
    }

    /// Checks if two matrices are the same size and share all the same
    /// entries, compared with `==` of the entry type.
    pub fn equals(&self, m: &Matrix<T>) -> (verdict: bool)
        requires
            self.well_formed(),
            m.well_formed(),
        ensures
            !Self::same_dimensions(self, m) ==> !verdict,
            Self::is_equality_verdict(self, m, verdict),
    {
        if !Self::same_dimensions(self, m) {
            return false;
        }
        for i in 0..self.rows
            invariant
                self.well_formed(),
                m.well_formed(),
                Self::same_dimensions(self, m),
                forall|a: int, b: int|
                    0 <= a < i && 0 <= b < self.cols ==> #[trigger] is_comparison(
                        self@[a][b],
                        m@[a][b],
                        true,
                    ),
        {
            for j in 0..self.cols
                invariant
                    self.well_formed(),
                    m.well_formed(),
                    Self::same_dimensions(self, m),
                    0 <= i < self.rows,
                    forall|b: int|
                        0 <= b < j ==> #[trigger] is_comparison(
                            self@[i as int][b],
                            m@[i as int][b],
                            true,
                        ),
            {
                let same = self.values[i][j] == m.values[i][j];
                assert(is_comparison(self@[i as int][j as int], m@[i as int][j as int], same));
                if !same {
                    return false;
                }
            }
        }
        true
    }
}

impl<T: Copy + Add<Output = T>> Matrix<T> {
    /// The entry type accepts the addition of each entry of `a` and the
    /// entry of `b` at the same place.
    pub open spec fn sum_permitted(a: &Matrix<T>, b: &Matrix<T>) -> bool {
        forall|i: int, j: int|
            0 <= i < a.rows && 0 <= j < a.cols ==> #[trigger] permits_sum(a@[i][j], b@[i][j])
    }

    /// `s` is a sum `a + b`: it has the dimensions of both, and its entry at
    /// `(i, j)` is an outcome of `a[i][j] + b[i][j]`.
    pub open spec fn is_sum_of(a: &Matrix<T>, b: &Matrix<T>, s: &Matrix<T>) -> bool {
        &&& s.well_formed()
        &&& s.rows == b.rows
        &&& s.cols == b.cols
        &&& forall|i: int, j: int|
            0 <= i < a.rows && 0 <= j < a.cols ==> is_sum(a@[i][j], b@[i][j], #[trigger] s@[i][j])
    }

    /// Adds two matrices.
    ///
    /// Fails with [`MatrixError::DimensionMismatch`] exactly when
    /// `same_dimensions(self, m)` is false. Otherwise the entry at `(i, j)`
    /// of the result is `self[i][j] + m[i][j]`.
    pub fn add(&self, m: &Matrix<T>) -> (result: Result<Matrix<T>, MatrixError>)
        requires
            self.well_formed(),
            m.well_formed(),
            Self::same_dimensions(self, m) ==> Self::sum_permitted(self, m),
        ensures
            result is Ok <==> Self::same_dimensions(self, m),
            result matches Ok(s) ==> Self::is_sum_of(self, m, &s),
            result matches Err(e) ==> e == MatrixError::DimensionMismatch,
    {
        if !Self::same_dimensions(self, m) {
            return Err(MatrixError::DimensionMismatch);
        }
        let mut matrix: Vec<Vec<T>> = Vec::new();
        for i in 0..self.rows
            invariant
                self.well_formed(),
                m.well_formed(),
                Self::same_dimensions(self, m),
                Self::sum_permitted(self, m),
                matrix@.len() == i,
                forall|a: int| 0 <= a < i ==> (#[trigger] matrix@[a])@.len() == self.cols,
                forall|a: int, b: int|
                    0 <= a < i && 0 <= b < self.cols ==> is_sum(
                        self@[a][b],
                        m@[a][b],
                        #[trigger] matrix@[a]@[b],
                    ),
        {
            let mut row: Vec<T> = Vec::new();
            for j in 0..self.cols
                invariant
                    self.well_formed(),
                    m.well_formed(),
                    Self::same_dimensions(self, m),
                    Self::sum_permitted(self, m),
                    0 <= i < self.rows,
                    row@.len() == j,
                    forall|b: int|
                        0 <= b < j ==> is_sum(
                            self@[i as int][b],
                            m@[i as int][b],
                            #[trigger] row@[b],
                        ),
            {
                assert(permits_sum(self@[i as int][j as int], m@[i as int][j as int]));
                row.push(self.values[i][j] + m.values[i][j]);
            }
            matrix.push(row);
        }
        let sum = Matrix { values: matrix, rows: m.rows, cols: m.cols };
        Ok(sum)
    }
}

impl<T: Copy + Add<Output = T> + Mul<Output = T> + Default> Matrix<T> {
    /// Every step of computing the product `a * b` is accepted by the entry
    /// type, for each entry of the product.
    pub open spec fn product_permitted(a: &Matrix<T>, b: &Matrix<T>) -> bool {
        forall|i: int, j: int|
            0 <= i < a.rows && 0 <= j < b.cols ==> dot_permitted(
                #[trigger] a@[i],
                #[trigger] column(b@, j),
                a.cols as nat,
            )
    }

    /// `p` is a product `a * b`: it has the rows of `a` and the columns of
    /// `b`, and its entry at `(i, j)` is an outcome of accumulating row `i` of
    /// `a` against column `j` of `b`.
    pub open spec fn is_product_of(a: &Matrix<T>, b: &Matrix<T>, p: &Matrix<T>) -> bool {
        &&& p.well_formed()
        &&& p.rows == a.rows
        &&& p.cols == b.cols
        &&& forall|i: int, j: int|
            0 <= i < a.rows && 0 <= j < b.cols ==> is_dot(
                a@[i],
                column(b@, j),
                a.cols as nat,
                #[trigger] p@[i][j],
            )
    }

    /// Multiplies two matrices.
    ///
    /// Fails with [`MatrixError::IncompatibleShape`] exactly when
    /// `can_multiply(self, m)` is false. Otherwise the entry at `(i, j)` of
    /// the result is the sum over `k`, in ascending order and starting from
    /// the default value, of `self[i][k] * m[k][j]`.
    pub fn multiply(&self, m: &Matrix<T>) -> (result: Result<Matrix<T>, MatrixError>)
        requires
            self.well_formed(),
            m.well_formed(),
            Self::can_multiply(self, m) ==> Self::product_permitted(self, m),
        ensures
            result is Ok <==> Self::can_multiply(self, m),
            result matches Ok(p) ==> Self::is_product_of(self, m, &p),
            result matches Err(e) ==> e == MatrixError::IncompatibleShape,
    {
        if !Self::can_multiply(self, m) {
            return Err(MatrixError::IncompatibleShape);
        }
        let mut matrix: Vec<Vec<T>> = Vec::new();
        let rows = self.rows;
        let cols = m.cols;
        for i in 0..rows
            invariant
                self.well_formed(),
                m.well_formed(),
                self.cols == m.rows,
                rows == self.rows,
                cols == m.cols,
                Self::product_permitted(self, m),
                matrix@.len() == i,
                forall|a: int| 0 <= a < i ==> (#[trigger] matrix@[a])@.len() == cols,
                forall|a: int, b: int|
                    0 <= a < i && 0 <= b < cols ==> is_dot(
                        self@[a],
                        column(m@, b),
                        self.cols as nat,
                        #[trigger] matrix@[a]@[b],
                    ),
        {
            let mut row: Vec<T> = Vec::new();
            for j in 0..cols
                invariant
                    self.well_formed(),
                    m.well_formed(),
                    self.cols == m.rows,
                    cols == m.cols,
                    0 <= i < self.rows,
                    Self::product_permitted(self, m),
                    row@.len() == j,
                    forall|b: int|
                        0 <= b < j ==> is_dot(
                            self@[i as int],
                            column(m@, b),
                            self.cols as nat,
                            #[trigger] row@[b],
                        ),
            {
                let ghost x = self@[i as int];
                let ghost y = column(m@, j as int);
                let mut sum = T::default();
                for k in 0..self.cols
                    invariant
                        self.well_formed(),
                        m.well_formed(),
                        self.cols == m.rows,
                        0 <= i < self.rows,
                        0 <= j < m.cols,
                        x == self@[i as int],
                        y == column(m@, j as int),
                        dot_permitted(x, y, self.cols as nat),
                        is_dot(x, y, k as nat, sum),
                {
                    assert(step_permitted(x, y, k as nat));
                    let term = self.values[i][k] * m.values[k][j];
                    assert(is_product(x[k as int], y[k as int], term));
                    let next = sum + term;
                    assert(is_sum(sum, term, next));
                    sum = next;
                }
                row.push(sum);
            }
            matrix.push(row);
        }
        let product = Matrix { values: matrix, rows, cols };
        Ok(product)
    }
}

} // verus!
