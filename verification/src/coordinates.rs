//! The address of a cell: its row and its column.
use vstd::prelude::*;

verus! {

/// A row and a column, both counted from zero.
#[derive(Debug, Clone, Copy, PartialEq, Eq, Structural)]
pub struct Coordinates {
    pub row: usize,
    pub column: usize,
}

/// Longer name of [`Coordinates`].
pub type CellCoordinates = Coordinates;

/// Another name of [`Coordinates`].
pub type CellPosition = Coordinates;

impl Coordinates {
    /// The coordinates of row `row` and column `column`.
    pub fn new(row: usize, column: usize) -> (coordinates: Self)
        ensures
            coordinates == (Coordinates { row, column }),
    {
        Self { row, column }
    }

    /// Whether these are the coordinates of the left top corner.
    pub fn is_left_top_corner(&self) -> (corner: bool)
        ensures
            corner == (self.row == 0 && self.column == 0),
    {
        self.row == 0 && self.column == 0
    }

    /// Whether these coordinates lie in the first row.
    pub fn is_top_row(&self) -> (top: bool)
        ensures
            top == (self.row == 0),
    {
        self.row == 0
    }

    /// Whether these coordinates lie in the first column.
    pub fn is_left_column(&self) -> (left: bool)
        ensures
            left == (self.column == 0),
    {
        self.column == 0
    }

    /// These coordinates as seen from `new_origin`, which must not lie below
    /// or to the right of them.
    pub fn recalculate_to_origin(&self, new_origin: &Coordinates) -> (coordinates: Self)
        requires
            new_origin.row <= self.row,
            new_origin.column <= self.column,
        ensures
            coordinates.row == self.row - new_origin.row,
            coordinates.column == self.column - new_origin.column,
    {
        let front_grid_row = self.row - new_origin.row;
        let front_grid_column = self.column - new_origin.column;
        Coordinates::new(front_grid_row, front_grid_column)
    }

    /// These coordinates moved down by `rows` and right by `columns`.
    pub fn translate(&self, rows: usize, columns: usize) -> (coordinates: Self)
        requires
            self.row + rows <= usize::MAX,
            self.column + columns <= usize::MAX,
        ensures
            coordinates.row == self.row + rows,
            coordinates.column == self.column + columns,
    {
        Self::new(self.row + rows, self.column + columns)
    }
}

} // verus!
