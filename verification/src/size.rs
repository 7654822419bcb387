//! The dimensions of a grid.
use vstd::prelude::*;

verus! {

/// A number of rows and a number of columns.
#[derive(Debug, Clone, Copy, PartialEq, Eq, Structural)]
pub struct Size {
    pub rows: usize,
    pub columns: usize,
}

/// Longer name of [`Size`].
pub type GridSize = Size;

impl Size {
    /// The size of `rows` rows and `columns` columns.
    pub fn new(rows: usize, columns: usize) -> (size: Self)
        ensures
            size == (Size { rows, columns }),
    {
        Self { rows, columns }
    }

    /// The number of cells of a grid of this size, where it is a `usize`.
    pub fn number_of_cells(&self) -> (cells: usize)
        requires
            self.rows * self.columns <= usize::MAX,
        ensures
            cells == self.rows * self.columns,
    {
        self.rows * self.columns
    }

    /// Whether a grid of this size has no cell.
    pub fn is_empty(&self) -> (empty: bool)
        ensures
            empty == (self.rows * self.columns == 0),
    {
        assert(self.rows * self.columns == 0 <==> self.rows == 0 || self.columns == 0)
            by (nonlinear_arith);
        self.rows == 0 || self.columns == 0
    }
}

} // verus!
