//! Placing a pattern on a background: one grid stamped onto another.
use crate::cell::{Cell, State};
use crate::coordinates::Coordinates;
use crate::grid::{Grid, column_count, has_no_cell, is_position, row_count, rows_of};
use crate::row::{Row, states_of};
use vstd::prelude::*;

verus! {

/// Why a front grid cannot be placed on a back grid.
#[derive(Debug, Clone, Copy, PartialEq, Eq, Structural)]
pub enum OverlapError {
    /// The position for the front grid is no position of the back grid.
    PositionOutOfBounds,
    /// The front grid, placed at the position, reaches beyond the back grid.
    FrontGridDoesNotFit,
}

/// Whether the cell of the back grid at `(row, column)` lies under the front
/// grid, whose left top corner is at `position`.
pub open spec fn is_overlapped(
    front: Seq<Seq<State>>,
    position: Coordinates,
    row: int,
    column: int,
) -> bool {
    &&& position.row <= row < position.row + row_count(front)
    &&& position.column <= column < position.column + column_count(front)
}

/// The state at `(row, column)` after the front grid was placed: that of the
/// front grid where it covers the position, that of the back grid elsewhere.
pub open spec fn overlapped_state(
    back: Seq<Seq<State>>,
    front: Seq<Seq<State>>,
    position: Coordinates,
    row: int,
    column: int,
) -> State {
    if is_overlapped(front, position, row, column) {
        front[row - position.row][column - position.column]
    } else {
        back[row][column]
    }
}

/// Row `row` of the back grid after the front grid was placed.
pub open spec fn stamped_row(
    back: Seq<Seq<State>>,
    front: Seq<Seq<State>>,
    position: Coordinates,
    row: int,
) -> Seq<State> {
    Seq::new(
        column_count(back),
        |column: int| overlapped_state(back, front, position, row, column),
    )
}

/// The back grid with the front grid placed on it cell by cell.
pub open spec fn stamped(
    back: Seq<Seq<State>>,
    front: Seq<Seq<State>>,
    position: Coordinates,
) -> Seq<Seq<State>> {
    Seq::new(back.len(), |row: int| stamped_row(back, front, position, row))
}

/// Whether the front grid covers the back grid exactly.
pub open spec fn is_perfect_overlap(
    back: Seq<Seq<State>>,
    front: Seq<Seq<State>>,
    position: Coordinates,
) -> bool {
    &&& row_count(back) == row_count(front)
    &&& column_count(back) == column_count(front)
    &&& position.row == 0
    &&& position.column == 0
}

/// Whether the right bottom corner of the front grid, placed at `position`,
/// is a position of the back grid.
pub open spec fn corner_is_inside(
    back: Seq<Seq<State>>,
    front: Seq<Seq<State>>,
    position: Coordinates,
) -> bool {
    is_position(
        back,
        position.row + row_count(front) - 1,
        position.column + column_count(front) - 1,
    )
}

/// What placing `front` on `back` at `position` gives. In this order: on a
/// back grid without cells, the grid without rows; with a front grid without
/// cells, the back grid; where the front grid covers the back grid exactly,
/// the front grid. Otherwise the position and the right bottom corner of the
/// front grid must both lie on the back grid, which is then stamped.
pub open spec fn overlap_of(
    back: Seq<Seq<State>>,
    front: Seq<Seq<State>>,
    position: Coordinates,
) -> Result<Seq<Seq<State>>, OverlapError> {
    if has_no_cell(back) {
        Ok(Seq::empty())
    } else if has_no_cell(front) {
        Ok(back)
    } else if is_perfect_overlap(back, front, position) {
        Ok(front)
    } else if !is_position(back, position.row as int, position.column as int) {
        Err(OverlapError::PositionOutOfBounds)
    } else if !corner_is_inside(back, front, position) {
        Err(OverlapError::FrontGridDoesNotFit)
    } else {
        Ok(stamped(back, front, position))
    }
}

/// Places `front_grid` on `back_grid` with its left top corner at
/// `front_grid_position`, where it fits there.
pub fn overlap(back_grid: &Grid, front_grid: &Grid, front_grid_position: &Coordinates) -> (grid:
    Grid)
    requires
        overlap_of(back_grid@, front_grid@, *front_grid_position) is Ok,
    ensures
        overlap_of(back_grid@, front_grid@, *front_grid_position) == Ok::<
            Seq<Seq<State>>,
            OverlapError,
        >(grid@),
{
    if back_grid.is_empty() {
        return Grid::new_empty();
    }
    if front_grid.is_empty() {
        return back_grid.clone();
    }
    if perfect_overlapping(back_grid, front_grid, front_grid_position) {
        return front_grid.clone();
    }
    Grid::new(calculate_new_rows(back_grid, front_grid, front_grid_position))
}

/// Places `front_grid` on `back_grid` with its left top corner at
/// `front_grid_position`, or says why it cannot be placed there.
pub fn try_overlap(back_grid: &Grid, front_grid: &Grid, front_grid_position: &Coordinates) -> (result:
    Result<Grid, OverlapError>)
    ensures
        match result {
            Ok(grid) => overlap_of(back_grid@, front_grid@, *front_grid_position) == Ok::<
                Seq<Seq<State>>,
                OverlapError,
            >(grid@),
            Err(error) => overlap_of(back_grid@, front_grid@, *front_grid_position) == Err::<
                Seq<Seq<State>>,
                OverlapError,
            >(error),
        },
{
    if back_grid.is_empty() || front_grid.is_empty() || perfect_overlapping(
        back_grid,
        front_grid,
        front_grid_position,
    ) {
        return Ok(overlap(back_grid, front_grid, front_grid_position));
    }
    if !back_grid.position_is_valid(front_grid_position) {
        return Err(OverlapError::PositionOutOfBounds);
    }
    proof {
        back_grid.lemma_counts_are_usize();
    }
    match front_grid_right_bottom_corner_coordinates(front_grid, front_grid_position) {
        Some(corner) => {
            if !back_grid.position_is_valid(&corner) {
                return Err(OverlapError::FrontGridDoesNotFit);
            }
        },
        None => {
            return Err(OverlapError::FrontGridDoesNotFit);
        },
    }
    Ok(overlap(back_grid, front_grid, front_grid_position))
}

fn perfect_overlapping(back_grid: &Grid, front_grid: &Grid, front_grid_position: &Coordinates) -> (perfect:
    bool)
    ensures
        perfect == is_perfect_overlap(back_grid@, front_grid@, *front_grid_position),
{
    back_grid.has_same_dimensions(front_grid) && front_grid_position.is_left_top_corner()
}

/// The right bottom corner of the front grid in the coordinates of the back
/// grid, where both of its coordinates are a `usize`.
fn front_grid_right_bottom_corner_coordinates(
    front_grid: &Grid,
    front_grid_position: &Coordinates,
) -> (corner: Option<Coordinates>)
    requires
        !has_no_cell(front_grid@),
    ensures
        match corner {
            Some(corner) => {
                &&& corner.row == front_grid_position.row + row_count(front_grid@) - 1
                &&& corner.column == front_grid_position.column + column_count(front_grid@) - 1
            },
            None => {
                ||| front_grid_position.row + row_count(front_grid@) - 1 > usize::MAX
                ||| front_grid_position.column + column_count(front_grid@) - 1 > usize::MAX
            },
        },
{
    let rows = front_grid.rows() - 1;
    let columns = front_grid.columns() - 1;
    if rows > usize::MAX - front_grid_position.row || columns > usize::MAX
        - front_grid_position.column {
        return None;
    }
    Some(front_grid_position.translate(rows, columns))
}

fn calculate_new_rows(back_grid: &Grid, front_grid: &Grid, front_grid_position: &Coordinates) -> (cell_rows:
    Vec<Row>)
    requires
        front_grid_position.row + row_count(front_grid@) <= row_count(back_grid@),
        front_grid_position.column + column_count(front_grid@) <= column_count(back_grid@),
    ensures
        rows_of(cell_rows@) == stamped(back_grid@, front_grid@, *front_grid_position),
{
    let ghost expected = stamped(back_grid@, front_grid@, *front_grid_position);
    let mut cell_rows: Vec<Row> = Vec::new();
    let rows = back_grid.rows();
    let mut row: usize = 0;
    while row < rows
        invariant
            row <= rows,
            rows == row_count(back_grid@),
            front_grid_position.row + row_count(front_grid@) <= row_count(back_grid@),
            front_grid_position.column + column_count(front_grid@) <= column_count(back_grid@),
            expected == stamped(back_grid@, front_grid@, *front_grid_position),
            rows_of(cell_rows@) =~= expected.take(row as int),
        decreases rows - row,
    {
        let ghost rows_before = cell_rows@;
        let new_row = calculate_new_row(row, back_grid, front_grid, front_grid_position);
        cell_rows.push(new_row);
        proof {
            assert(rows_of(cell_rows@) =~= rows_of(rows_before).push(new_row@));
            assert(expected.take(row + 1) =~= expected.take(row as int).push(expected[row as int]));
        }
        row += 1;
    }
    assert(expected.take(rows as int) =~= expected);
    cell_rows
}

fn calculate_new_row(
    row: usize,
    back_grid: &Grid,
    front_grid: &Grid,
    front_grid_position: &Coordinates,
) -> (new_row: Row)
    requires
        row < row_count(back_grid@),
        front_grid_position.row + row_count(front_grid@) <= row_count(back_grid@),
        front_grid_position.column + column_count(front_grid@) <= column_count(back_grid@),
    ensures
        new_row@ == stamped_row(back_grid@, front_grid@, *front_grid_position, row as int),
{
    let ghost expected = stamped_row(back_grid@, front_grid@, *front_grid_position, row as int);
    let mut cells: Vec<Cell> = Vec::new();
    let columns = back_grid.columns();
    let mut column: usize = 0;
    while column < columns
        invariant
            column <= columns,
            columns == column_count(back_grid@),
            row < row_count(back_grid@),
            front_grid_position.row + row_count(front_grid@) <= row_count(back_grid@),
            front_grid_position.column + column_count(front_grid@) <= column_count(back_grid@),
            expected == stamped_row(back_grid@, front_grid@, *front_grid_position, row as int),
            states_of(cells@) =~= expected.take(column as int),
        decreases columns - column,
    {
        let ghost cells_before = cells@;
        let cell = calculate_new_cell(
            Coordinates::new(row, column),
            back_grid,
            front_grid,
            front_grid_position,
        );
        cells.push(cell);
        proof {
            assert(states_of(cells@) =~= states_of(cells_before).push(cell@));
            assert(expected.take(column + 1) =~= expected.take(column as int).push(
                expected[column as int],
            ));
        }
        column += 1;
    }
    assert(expected.take(columns as int) =~= expected);
    Row::with(cells)
}

fn calculate_new_cell(
    cell_coordinates: Coordinates,
    back_grid: &Grid,
    front_grid: &Grid,
    front_grid_position: &Coordinates,
) -> (cell: Cell)
    requires
        is_position(back_grid@, cell_coordinates.row as int, cell_coordinates.column as int),
        front_grid_position.row + row_count(front_grid@) <= row_count(back_grid@),
        front_grid_position.column + column_count(front_grid@) <= column_count(back_grid@),
    ensures
        cell@ == overlapped_state(
            back_grid@,
            front_grid@,
            *front_grid_position,
            cell_coordinates.row as int,
            cell_coordinates.column as int,
        ),
{
    proof {
        back_grid.lemma_counts_are_usize();
    }
    match overlapped_cell(&cell_coordinates, front_grid, front_grid_position) {
        None => back_grid.get_cell(&cell_coordinates).clone(),
        Some(front_cell_pos) => front_grid.get_cell(&front_cell_pos).clone(),
    }
}

/// The position in the front grid that covers `cell_coordinates`, if one does.
fn overlapped_cell(
    cell_coordinates: &Coordinates,
    front_grid: &Grid,
    front_grid_position: &Coordinates,
) -> (front_cell: Option<Coordinates>)
    requires
        front_grid_position.row + row_count(front_grid@) <= usize::MAX,
        front_grid_position.column + column_count(front_grid@) <= usize::MAX,
    ensures
        front_cell is Some == is_overlapped(
            front_grid@,
            *front_grid_position,
            cell_coordinates.row as int,
            cell_coordinates.column as int,
        ),
        front_cell is Some ==> {
            &&& front_cell->Some_0.row == cell_coordinates.row - front_grid_position.row
            &&& front_cell->Some_0.column == cell_coordinates.column - front_grid_position.column
        },
{
    if !is_overlapped_cell(cell_coordinates, front_grid, front_grid_position) {
        return None;
    }
    Some(relative_front_grid_cell_coordinates(cell_coordinates, front_grid_position))
}

/// Whether the front grid has a cell over `cell_coordinates` of the back grid.
fn is_overlapped_cell(
    cell_coordinates: &Coordinates,
    front_grid: &Grid,
    front_grid_position: &Coordinates,
) -> (overlapped: bool)
    requires
        front_grid_position.row + row_count(front_grid@) <= usize::MAX,
        front_grid_position.column + column_count(front_grid@) <= usize::MAX,
    ensures
        overlapped == is_overlapped(
            front_grid@,
            *front_grid_position,
            cell_coordinates.row as int,
            cell_coordinates.column as int,
        ),
{
    cell_coordinates.row >= front_grid_position.row && cell_coordinates.column
        >= front_grid_position.column && cell_coordinates.row < (front_grid_position.row
        + front_grid.rows()) && cell_coordinates.column < front_grid_position.column
        + front_grid.columns()
}

fn relative_front_grid_cell_coordinates(
    cell_coordinates: &Coordinates,
    front_grid_position: &Coordinates,
) -> (coordinates: Coordinates)
    requires
        front_grid_position.row <= cell_coordinates.row,
        front_grid_position.column <= cell_coordinates.column,
    ensures
        coordinates.row == cell_coordinates.row - front_grid_position.row,
        coordinates.column == cell_coordinates.column - front_grid_position.column,
{
    cell_coordinates.recalculate_to_origin(front_grid_position)
}

} // verus!
