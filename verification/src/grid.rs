//! The frame buffer is an `array2d::Array2D<u8>`; this module gives Verus
//! a view of its contents and the three operations that the machine uses.

use array2d::Array2D;
use vstd::prelude::*;

verus! {

#[verifier::external_type_specification]
#[verifier::external_body]
#[verifier::reject_recursive_types(T)]
pub struct ExArray2D<T>(Array2D<T>);

/// The cells of a two-dimensional byte array, as a sequence of rows, each a
/// sequence of the row's cells in column order.
pub uninterp spec fn grid_rows(g: Array2D<u8>) -> Seq<Seq<u8>>;

/// A grid of `num_rows` rows of `num_columns` cells, each holding `value`.
pub open spec fn filled_grid(value: u8, num_rows: nat, num_columns: nat) -> Seq<Seq<u8>> {
    Seq::new(num_rows, |r: int| Seq::new(num_columns, |c: int| value))
}

/// Calls `Array2D::filled_with(value, num_rows, num_columns)`.
/// Its source computes `num_rows * num_columns` (which must not overflow) and
/// fills a vector of that many copies of `value`; the contract states that
/// the new array has `num_rows` rows of `num_columns` cells equal to `value`.
#[verifier::external_body]
pub(crate) fn grid_filled_with(value: u8, num_rows: usize, num_columns: usize) -> (g: Array2D<u8>)
    requires
        num_rows * num_columns <= isize::MAX,
    ensures
        grid_rows(g) == filled_grid(value, num_rows as nat, num_columns as nat),
{
    Array2D::filled_with(value, num_rows, num_columns)
}

/// Reads `g[(row, column)]` through `Index<(usize, usize)>`, which panics out
/// of bounds; the contract states that in bounds it returns the cell.
#[verifier::external_body]
pub(crate) fn grid_get(g: &Array2D<u8>, row: usize, column: usize) -> (cell: u8)
    requires
        row < grid_rows(*g).len(),
        column < grid_rows(*g)[row as int].len(),
    ensures
        cell == grid_rows(*g)[row as int][column as int],
{
    g[(row, column)]
}

/// Writes `g[(row, column)] = value` through `IndexMut<(usize, usize)>`,
/// which panics out of bounds; the contract states that in bounds exactly
/// that cell changes and that the call returns normally (`get_mut` finds the
/// cell, so the `unwrap_or_else` panic is not reached).
#[verifier::external_body]
pub(crate) fn grid_set(g: &mut Array2D<u8>, row: usize, column: usize, value: u8)
    requires
        row < grid_rows(*old(g)).len(),
        column < grid_rows(*old(g))[row as int].len(),
    ensures
        grid_rows(*final(g)) == grid_rows(*old(g)).update(
            row as int,
            grid_rows(*old(g))[row as int].update(column as int, value),
        ),
    no_unwind
{
    g[(row, column)] = value;
}

} // verus!
