//! Walking over the positions of a grid row by row.
use crate::coordinates::Coordinates;
use crate::grid::{Grid, column_count, row_count};
use crate::size::Size;
use vstd::arithmetic::div_mod::{
    lemma_fundamental_div_mod, lemma_fundamental_div_mod_converse_div,
    lemma_fundamental_div_mod_converse_mod,
};
use vstd::prelude::*;

verus! {

/// Yields the positions of a grid of a given size one by one: the first row
/// from left to right, then the second, and so on.
pub struct Traverser {
    row: usize,
    column: usize,
    grid_size: Size,
}

/// Longer name of [`Traverser`].
pub type GridTraverser = Traverser;

/// The number of cells of a grid of size `size`.
pub open spec fn cell_count(size: Size) -> nat {
    (size.rows * size.columns) as nat
}

/// The position that comes after `index` others when a grid of size `size`
/// is read row by row.
pub open spec fn row_major(size: Size, index: nat) -> Coordinates {
    Coordinates {
        row: (index / size.columns as nat) as usize,
        column: (index % size.columns as nat) as usize,
    }
}

/// Reading row by row numbers the positions of a grid: the position with the
/// number `index` lies on the grid, and its number is the count of the
/// positions in the rows above it and to the left of it in its own row.
pub proof fn lemma_row_major(size: Size, index: nat)
    requires
        index < cell_count(size),
    ensures
        row_major(size, index).row < size.rows,
        row_major(size, index).column < size.columns,
        row_major(size, index).row == index as int / size.columns as int,
        row_major(size, index).column == index as int % size.columns as int,
        index == row_major(size, index).row * size.columns + row_major(size, index).column,
{
    let columns = size.columns as int;
    assert(columns > 0) by (nonlinear_arith)
        requires
            index < size.rows * columns,
            columns >= 0,
    ;
    lemma_fundamental_div_mod(index as int, columns);
    let row = index as int / columns;
    let column = index as int % columns;
    assert(0 <= column < columns);
    assert(index == columns * row + column);
    assert(0 <= row < size.rows) by (nonlinear_arith)
        requires
            index == columns * row + column,
            0 <= column < columns,
            0 <= index < size.rows * columns,
    ;
    assert(columns * row == row * columns) by (nonlinear_arith);
}

/// The position in row `row` and column `column` of a grid of size `size` is
/// the one that reading row by row reaches after `row * columns + column`
/// others.
pub proof fn lemma_row_major_of_position(size: Size, row: usize, column: usize)
    requires
        row < size.rows,
        column < size.columns,
    ensures
        row * size.columns + column < cell_count(size),
        row_major(size, (row * size.columns + column) as nat) == (Coordinates { row, column }),
{
    let columns = size.columns as int;
    let index = row * columns + column;
    assert(0 <= index < size.rows * columns) by (nonlinear_arith)
        requires
            index == row * columns + column,
            0 <= row < size.rows,
            0 <= column < columns,
    ;
    lemma_fundamental_div_mod_converse_div(index, columns, row as int, column as int);
    lemma_fundamental_div_mod_converse_mod(index, columns, row as int, column as int);
}

impl Traverser {
    /// The size of the grid that is walked over.
    pub closed spec fn size(&self) -> Size {
        self.grid_size
    }

    /// The number of positions that were yielded so far.
    pub closed spec fn yielded(&self) -> nat {
        (self.row * self.grid_size.columns + self.column) as nat
    }

    /// The walk stands on a position of the grid, or behind the last one.
    #[verifier::type_invariant]
    pub closed spec fn well_formed(&self) -> bool {
        if self.grid_size.rows == 0 || self.grid_size.columns == 0 {
            self.row == 0 && self.column == 0
        } else {
            ||| self.row < self.grid_size.rows && self.column < self.grid_size.columns
            ||| self.row == self.grid_size.rows && self.column == 0
        }
    }

    /// A walk over a grid of size `grid_size`, before its first position.
    pub fn new(grid_size: Size) -> (traverser: Self)
        ensures
            traverser.size() == grid_size,
            traverser.yielded() == 0,
    {
        assert(0 * grid_size.columns + 0 == 0) by (nonlinear_arith);
        Self { row: 0, column: 0, grid_size }
    }

    /// The row of the position that comes next.
    pub fn current_row(&self) -> (row: usize)
        requires
            self.yielded() < cell_count(self.size()),
        ensures
            row == row_major(self.size(), self.yielded()).row,
    {
        proof {
            use_type_invariant(self);
            self.lemma_position();
        }
        self.row
    }

    /// The column of the position that comes next.
    pub fn current_column(&self) -> (column: usize)
        requires
            self.yielded() < cell_count(self.size()),
        ensures
            column == row_major(self.size(), self.yielded()).column,
    {
        proof {
            use_type_invariant(self);
            self.lemma_position();
        }
        self.column
    }

    /// The next position, if the walk has not yielded them all.
    pub fn next(&mut self) -> (coordinates: Option<Coordinates>)
        ensures
            final(self).size() == old(self).size(),
            old(self).yielded() < cell_count(old(self).size()) ==> {
                &&& coordinates == Some(row_major(old(self).size(), old(self).yielded()))
                &&& final(self).yielded() == old(self).yielded() + 1
            },
            old(self).yielded() >= cell_count(old(self).size()) ==> {
                &&& coordinates is None
                &&& final(self).yielded() == old(self).yielded()
            },
    {
        proof {
            use_type_invariant(&*self);
            self.lemma_position();
        }
        if self.grid_size.is_empty() {
            return None;
        }
        if self.row >= self.grid_size.rows {
            return None;
        }
        let current_coordinates = Coordinates::new(self.current_row(), self.current_column());
        let ghost columns = self.grid_size.columns as int;
        let ghost row = self.row as int;
        if self.column + 1 == self.grid_size.columns {
            assert((row + 1) * columns + 0 == row * columns + (columns - 1) + 1)
                by (nonlinear_arith);
            self.column = 0;
            self.row += 1;
        } else {
            self.column += 1;
        }
        Some(current_coordinates)
    }

    /// Where the walk stands: on the position that reading row by row
    /// reaches after as many others as were yielded, or behind the last one.
    proof fn lemma_position(&self)
        requires
            self.well_formed(),
        ensures
            self.yielded() < cell_count(self.size()) <==> self.row < self.grid_size.rows
                && self.column < self.grid_size.columns,
            self.yielded() < cell_count(self.size()) ==> row_major(self.size(), self.yielded())
                == (Coordinates { row: self.row, column: self.column }),
            self.yielded() <= cell_count(self.size()),
    {
        let rows = self.grid_size.rows as int;
        let columns = self.grid_size.columns as int;
        if rows == 0 || columns == 0 {
            assert(rows * columns == 0) by (nonlinear_arith)
                requires
                    rows == 0 || columns == 0,
            ;
            assert(0 * columns + 0 == 0) by (nonlinear_arith);
        } else if self.row < rows {
            lemma_row_major_of_position(self.grid_size, self.row, self.column);
        } else {
            assert(self.row * columns + 0 == rows * columns);
        }
    }
}

impl Grid {
    /// A walk over the positions of this grid.
    pub fn iter(&self) -> (traverser: Traverser)
        ensures
            traverser.size().rows == row_count(self@),
            traverser.size().columns == column_count(self@),
            traverser.yielded() == 0,
    {
        Traverser::new(self.size())
    }
}

} // verus!
