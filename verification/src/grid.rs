//! The rectangular grid of cells and its toroidal neighbourhood.
use crate::cell::{Cell, State};
use crate::coordinates::Coordinates;
use crate::row::{Row, uniform_row};
use crate::size::Size;
use vstd::prelude::*;

verus! {

/// A rectangular grid of cells: a sequence of rows of one length.
#[derive(Debug, PartialEq, Eq)]
pub struct Grid {
    cell_rows: Vec<Row>,
}

/// What the rule of the game needs to know of a cell.
#[derive(Debug, PartialEq, Eq)]
pub struct CellInfo {
    pub number_of_live_neighbors: usize,
    pub state: State,
}

/// The rows of a grid were not all of one length.
#[derive(Debug, Clone, Copy, PartialEq, Eq, Structural)]
pub struct RaggedGridError;

/// The states held by a sequence of rows.
pub open spec fn rows_of(cell_rows: Seq<Row>) -> Seq<Seq<State>> {
    cell_rows.map_values(|row: Row| row@)
}

/// Whether all rows of `cells` have the same length.
pub open spec fn is_rectangular(cells: Seq<Seq<State>>) -> bool {
    forall|row: int| 0 <= row < cells.len() ==> (#[trigger] cells[row]).len() == cells[0].len()
}

/// The number of rows of `cells`.
pub open spec fn row_count(cells: Seq<Seq<State>>) -> nat {
    cells.len()
}

/// The number of columns of `cells`: the length of its first row, and zero
/// where it has no row.
pub open spec fn column_count(cells: Seq<Seq<State>>) -> nat {
    if cells.len() == 0 {
        0
    } else {
        cells[0].len()
    }
}

/// Whether `cells` holds no cell: it has no row, or rows without columns.
pub open spec fn has_no_cell(cells: Seq<Seq<State>>) -> bool {
    row_count(cells) == 0 || column_count(cells) == 0
}

/// Whether `(row, column)` is the address of a cell of `cells`.
pub open spec fn is_position(cells: Seq<Seq<State>>, row: int, column: int) -> bool {
    0 <= row < row_count(cells) && 0 <= column < column_count(cells)
}

/// A grid of `rows` by `columns` cells that all have the state `state`.
pub open spec fn uniform_grid(rows: nat, columns: nat, state: State) -> Seq<Seq<State>> {
    Seq::new(rows, |row: int| uniform_row(columns, state))
}

impl View for Grid {
    type V = Seq<Seq<State>>;

    closed spec fn view(&self) -> Seq<Seq<State>> {
        rows_of(self.cell_rows@)
    }
}

impl Clone for Grid {
    fn clone(&self) -> (grid: Self)
        ensures
            grid@ == self@,
    {
        proof {
            use_type_invariant(self);
        }
        let cell_rows = self.cell_rows.clone();
        assert(rows_of(cell_rows@) =~= rows_of(self.cell_rows@));
        Grid { cell_rows }
    }
}

impl Default for Grid {
    fn default() -> (grid: Self)
        ensures
            grid@ == Seq::<Seq<State>>::empty(),
    {
        Self::new_empty()
    }
}

impl Grid {
    /// Every grid is rectangular.
    #[verifier::type_invariant]
    pub open spec fn well_formed(&self) -> bool {
        is_rectangular(self@)
    }

    /// The numbers of rows and of columns of a grid are each a `usize`.
    pub proof fn lemma_counts_are_usize(&self)
        ensures
            row_count(self@) <= usize::MAX,
            column_count(self@) <= usize::MAX,
    {
        assert(self@.len() == self.cell_rows.len());
        if self@.len() > 0 {
            self.cell_rows@[0].lemma_len_is_usize();
        }
    }

    /// Whether rows can make a grid: whether they have one length.
    pub fn have_same_length(cell_rows: &Vec<Row>) -> (same: bool)
        ensures
            same == is_rectangular(rows_of(cell_rows@)),
    {
        let ghost cells = rows_of(cell_rows@);
        if cell_rows.len() == 0 {
            return true;
        }
        let first_row_len = cell_rows[0].len();
        let mut index: usize = 0;
        while index < cell_rows.len()
            invariant
                index <= cell_rows.len(),
                cells == rows_of(cell_rows@),
                cell_rows.len() > 0,
                first_row_len == cells[0].len(),
                forall|row: int| 0 <= row < index ==> (#[trigger] cells[row]).len() == cells[0].len(),
            decreases cell_rows.len() - index,
        {
            if cell_rows[index].len() != first_row_len {
                assert(cells[index as int].len() != cells[0].len());
                return false;
            }
            index += 1;
        }
        true
    }

    /// The grid made of `cell_rows`, which must have one length.
    pub fn new(cell_rows: Vec<Row>) -> (grid: Self)
        requires
            is_rectangular(rows_of(cell_rows@)),
        ensures
            grid@ == rows_of(cell_rows@),
    {
        Self { cell_rows }
    }

    /// The grid made of `cell_rows`, where they have one length.
    pub fn try_new(cell_rows: Vec<Row>) -> (result: Result<Self, RaggedGridError>)
        ensures
            is_rectangular(rows_of(cell_rows@)) ==> result is Ok && result->Ok_0@ == rows_of(
                cell_rows@,
            ),
            !is_rectangular(rows_of(cell_rows@)) ==> result is Err,
    {
        if Self::have_same_length(&cell_rows) {
            Ok(Self::new(cell_rows))
        } else {
            Err(RaggedGridError)
        }
    }

    /// The grid without rows.
    pub fn new_empty() -> (grid: Self)
        ensures
            grid@ == Seq::<Seq<State>>::empty(),
    {
        let cell_rows: Vec<Row> = Vec::new();
        assert(rows_of(cell_rows@) =~= Seq::<Seq<State>>::empty());
        Self { cell_rows }
    }

    /// A grid of `rows` by `columns` dead cells.
    pub fn of_dead_cells(rows: usize, columns: usize) -> (grid: Self)
        ensures
            grid@ == uniform_grid(rows as nat, columns as nat, State::Dead),
    {
        let cell_rows = vec![Row::of_dead_cells(columns); rows];
        assert(rows_of(cell_rows@) =~= uniform_grid(rows as nat, columns as nat, State::Dead));
        Self { cell_rows }
    }

    /// A grid of `rows` by `columns` live cells.
    pub fn of_live_cells(rows: usize, columns: usize) -> (grid: Self)
        ensures
            grid@ == uniform_grid(rows as nat, columns as nat, State::Live),
    {
        let cell_rows = vec![Row::of_live_cells(columns); rows];
        assert(rows_of(cell_rows@) =~= uniform_grid(rows as nat, columns as nat, State::Live));
        Self { cell_rows }
    }

    /// The numbers of rows and of columns of this grid.
    pub fn size(&self) -> (size: Size)
        ensures
            size.rows == row_count(self@),
            size.columns == column_count(self@),
    {
        Size::new(self.rows(), self.columns())
    }

    /// The number of rows of this grid.
    pub fn rows(&self) -> (rows: usize)
        ensures
            rows == row_count(self@),
    {
        self.cell_rows.len()
    }

    /// The number of columns of this grid: zero where it has no row.
    pub fn columns(&self) -> (columns: usize)
        ensures
            columns == column_count(self@),
    {
        if self.cell_rows.len() == 0 {
            return 0;
        }
        self.cell_rows[0].len()
    }

    /// The number of cells, where it is a `usize`.
    pub fn number_of_cells(&self) -> (cells: usize)
        requires
            row_count(self@) * column_count(self@) <= usize::MAX,
        ensures
            cells == row_count(self@) * column_count(self@),
    {
        self.rows() * self.columns()
    }

    /// Whether this grid has no cell.
    pub fn is_empty(&self) -> (empty: bool)
        ensures
            empty == has_no_cell(self@),
    {
        self.rows() == 0 || self.columns() == 0
    }

    /// The cell at `cell_coordinates`, which must be a position of this grid.
    pub fn get_cell(&self, cell_coordinates: &Coordinates) -> (cell: &Cell)
        requires
            is_position(self@, cell_coordinates.row as int, cell_coordinates.column as int),
        ensures
            cell@ == self@[cell_coordinates.row as int][cell_coordinates.column as int],
    {
        proof {
            use_type_invariant(self);
            assert(self@[cell_coordinates.row as int].len() == self@[0].len());
        }
        self.cell_rows[cell_coordinates.row].get_cell(cell_coordinates.column)
    }

    /// Row `row` of this grid.
    pub fn row(&self, row: usize) -> (cell_row: &Row)
        requires
            row < row_count(self@),
        ensures
            cell_row@ == self@[row as int],
    {
        &self.cell_rows[row]
    }

    /// Whether `other` has as many rows and as many columns as this grid.
    pub fn has_same_dimensions(&self, other: &Self) -> (same: bool)
        ensures
            same == (row_count(self@) == row_count(other@) && column_count(self@) == column_count(
                other@,
            )),
    {
        self.rows() == other.rows() && self.columns() == other.columns()
    }

    /// Whether this grid has a cell at `cell_coordinates`.
    pub fn position_is_valid(&self, cell_coordinates: &Coordinates) -> (valid: bool)
        ensures
            valid == is_position(
                self@,
                cell_coordinates.row as int,
                cell_coordinates.column as int,
            ),
    {
        cell_coordinates.row < self.rows() && cell_coordinates.column < self.columns()
    }

    /// Whether `cell_coordinates` lie in the last column of this grid.
    pub fn is_last_column(&self, cell_coordinates: &Coordinates) -> (last: bool)
        ensures
            last == (cell_coordinates.column == column_count(self@) - 1),
    {
        let columns = self.columns();
        columns > 0 && cell_coordinates.column == columns - 1
    }
}

} // verus!
