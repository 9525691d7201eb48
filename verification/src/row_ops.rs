//! Elementary row operations, applied in place.

use vstd::prelude::*;
use core::ops::Add;
use core::ops::Mul;
use crate::matrix::Matrix;
use crate::scalar::{is_product, is_sum, permits_product, permits_sum};

verus! {

/// `grid` with the rows at `a` and `b` exchanged.
pub open spec fn swap_rows<T>(grid: Seq<Seq<T>>, a: int, b: int) -> Seq<Seq<T>> {
    grid.update(a, grid[b]).update(b, grid[a])
}

/// `std`'s `<[T]>::swap`: with both indices in bounds it exchanges the two
/// elements and leaves every other element, and the length, as they were;
/// with equal indices nothing changes. Out of bounds it panics, which the
/// precondition rules out.
pub assume_specification<Item>[ <[Item]>::swap ](slice: &mut [Item], a: usize, b: usize)
    requires
        a < old(slice)@.len(),
        b < old(slice)@.len(),
    ensures
        final(slice)@ == old(slice)@.update(a as int, old(slice)@[b as int]).update(
            b as int,
            old(slice)@[a as int],
        ),
;

impl<T> Matrix<T> {
    /// Exchanges the contents of two rows. With `row1 == row2` nothing changes.
    pub fn apply_row_swap(&mut self, row1: usize, row2: usize)
        requires
            old(self).well_formed(),
            row1 < old(self).rows,
            row2 < old(self).rows,
        ensures
            final(self).well_formed(),
            final(self).rows == old(self).rows,
            final(self).cols == old(self).cols,
            final(self)@ == swap_rows(old(self)@, row1 as int, row2 as int),
    {
        self.values.swap(row1, row2);
    }
}

impl<T: Copy + Mul<Output = T>> Matrix<T> {
    /// The entry type accepts the multiplication of each entry of row `row`
    /// by `scalar`.
    pub open spec fn scaling_permitted(&self, row: int, scalar: T) -> bool {
        forall|j: int| 0 <= j < self.cols ==> #[trigger] permits_product(self@[row][j], scalar)
    }

    /// `after` is `self` with row `row` scaled by `scalar`: each entry of
    /// that row is an outcome of `self[row][j] * scalar`, and every other row
    /// and both dimensions are as in `self`.
    pub open spec fn is_row_scaled(&self, row: int, scalar: T, after: &Matrix<T>) -> bool {
        &&& after.well_formed()
        &&& after.rows == self.rows
        &&& after.cols == self.cols
        &&& forall|j: int|
            0 <= j < self.cols ==> is_product(self@[row][j], scalar, #[trigger] after@[row][j])
        &&& forall|i: int| 0 <= i < self.rows && i != row ==> #[trigger] after@[i] == self@[i]
    }

    /// Multiplies every entry of row `row` by `scalar`.
    pub fn apply_row_scalar(&mut self, row: usize, scalar: T)
        requires
            old(self).well_formed(),
            row < old(self).rows,
            old(self).scaling_permitted(row as int, scalar),
        ensures
            old(self).is_row_scaled(row as int, scalar, final(self)),
    {
        let cols = self.cols;
        for j in 0..cols
            invariant
                old(self).well_formed(),
                self.well_formed(),
                cols == self.cols,
                self.rows == old(self).rows,
                self.cols == old(self).cols,
                row < self.rows,
                old(self).scaling_permitted(row as int, scalar),
                forall|b: int|
                    0 <= b < j ==> is_product(
                        old(self)@[row as int][b],
                        scalar,
                        #[trigger] self@[row as int][b],
                    ),
                forall|b: int|
                    j <= b < self.cols ==> #[trigger] self@[row as int][b] == old(self)@[row as int][b],
                forall|i: int| 0 <= i < self.rows && i != row ==> #[trigger] self@[i] == old(self)@[i],
        {
            assert(permits_product(old(self)@[row as int][j as int], scalar));
            assert(self@[row as int][j as int] == self.values@[row as int]@[j as int]);
            let ghost before = self@;
            let scaled = self.values[row][j] * scalar;
            self.values[row][j] = scaled;
            assert(forall|i: int| 0 <= i < self.rows && i != row ==> #[trigger] self@[i] == before[i]);
        }
    }
}

impl<T: Copy + Add<Output = T>> Matrix<T> {
    /// The entry type accepts the addition of each entry of row `source`
    /// to the entry of row `target` in the same column.
    pub open spec fn row_addition_permitted(&self, target: int, source: int) -> bool {
        forall|j: int|
            0 <= j < self.cols ==> #[trigger] permits_sum(self@[target][j], self@[source][j])
    }

    /// `after` is `self` with row `source` added to row `target`: each entry
    /// of row `target` is an outcome of `self[target][j] + self[source][j]`,
    /// and every other row and both dimensions are as in `self`.
    pub open spec fn is_row_added(&self, target: int, source: int, after: &Matrix<T>) -> bool {
        &&& after.well_formed()
        &&& after.rows == self.rows
        &&& after.cols == self.cols
        &&& forall|j: int|
            0 <= j < self.cols ==> is_sum(
                self@[target][j],
                self@[source][j],
                #[trigger] after@[target][j],
            )
        &&& forall|i: int| 0 <= i < self.rows && i != target ==> #[trigger] after@[i] == self@[i]
    }

    /// Adds row `row_addend` to row `row`, entry by entry. When the two are
    /// different rows, `row_addend` is left as it was.
    pub fn apply_row_addition(&mut self, row: usize, row_addend: usize)
        requires
            old(self).well_formed(),
            row < old(self).rows,
            row_addend < old(self).rows,
            old(self).row_addition_permitted(row as int, row_addend as int),
        ensures
            old(self).is_row_added(row as int, row_addend as int, final(self)),
    {
        let cols = self.cols;
        for j in 0..cols
            invariant
                old(self).well_formed(),
                self.well_formed(),
                cols == self.cols,
                self.rows == old(self).rows,
                self.cols == old(self).cols,
                row < self.rows,
                row_addend < self.rows,
                old(self).row_addition_permitted(row as int, row_addend as int),
                forall|b: int|
                    0 <= b < j ==> is_sum(
                        old(self)@[row as int][b],
                        old(self)@[row_addend as int][b],
                        #[trigger] self@[row as int][b],
                    ),
                forall|b: int|
                    j <= b < self.cols ==> #[trigger] self@[row as int][b] == old(self)@[row as int][b],
                forall|i: int| 0 <= i < self.rows && i != row ==> #[trigger] self@[i] == old(self)@[i],
        {
            assert(permits_sum(old(self)@[row as int][j as int], old(self)@[row_addend as int][j as int]));
            assert(self@[row as int][j as int] == self.values@[row as int]@[j as int]);
            assert(self@[row_addend as int][j as int] == self.values@[row_addend as int]@[j as int]);
            let ghost before = self@;
            let total = self.values[row][j] + self.values[row_addend][j];
            self.values[row][j] = total;
            assert(forall|i: int| 0 <= i < self.rows && i != row ==> #[trigger] self@[i] == before[i]);
        }
    }
}

} // verus!
