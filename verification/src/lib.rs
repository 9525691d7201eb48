//! Dense rectangular matrices with verified algebra and elementary row operations.
//!
//! A [`matrix::Matrix`] stores its entries row by row, next to its declared
//! row and column counts. The entry type is a parameter: any `Copy` type with
//! `+`, `*`, `==` and a default value can be used, which covers the primitive
//! numeric types.
//!
//! Contracts describe every entry of a result through the entry type's own
//! operators (see [`scalar`] and [`dot`]): an entry of a sum is an outcome of
//! `+` on the two entries it was made from, and so on. Preconditions ask that
//! the entry type accepts each operation that is carried out. For machine
//! integers this means that nothing overflows, and [`exact`] shows how to
//! establish it; the general laws of the library are in [`laws`].

pub mod error;
pub mod scalar;
pub mod dot;
pub mod matrix;
pub mod row_ops;
pub mod text;
pub mod sums;
pub mod exact;
pub mod laws;
