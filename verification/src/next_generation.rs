//! The step from one generation of cells to the next.
use crate::cell::{Cell, State};
use crate::coordinates::Coordinates;
use crate::grid::{CellInfo, Grid, column_count, rows_of};
use crate::neighbor::live_neighbors;
use crate::row::{Row, states_of};
use vstd::prelude::*;

verus! {

/// The rule B3/S23: a dead cell with exactly three live neighbours is born,
/// a live cell with two or three live neighbours survives, and every other
/// cell is dead in the next generation.
pub open spec fn next_state(state: State, live_neighbors: nat) -> State {
    match state {
        State::Live => if live_neighbors == 2 || live_neighbors == 3 {
            State::Live
        } else {
            State::Dead
        },
        State::Dead => if live_neighbors == 3 {
            State::Live
        } else {
            State::Dead
        },
    }
}

/// Row `row` of the generation that follows `cells`.
pub open spec fn next_generation_row(cells: Seq<Seq<State>>, row: int) -> Seq<State> {
    Seq::new(
        column_count(cells),
        |column: int| next_state(cells[row][column], live_neighbors(cells, row, column)),
    )
}

/// The generation that follows `cells`: the rule applied to every cell at
/// once, each cell judged by its neighbours in `cells`.
pub open spec fn next_generation_of(cells: Seq<Seq<State>>) -> Seq<Seq<State>> {
    Seq::new(cells.len(), |row: int| next_generation_row(cells, row))
}

/// The generation that follows `grid`.
pub fn next_generation(grid: &Grid) -> (next: Grid)
    ensures
        next@ == next_generation_of(grid@),
{
    let mut cell_rows: Vec<Row> = Vec::new();
    let rows = grid.rows();
    let columns = grid.columns();
    let mut row: usize = 0;
    while row < rows
        invariant
            row <= rows,
            rows == grid@.len(),
            columns == column_count(grid@),
            rows_of(cell_rows@) =~= next_generation_of(grid@).take(row as int),
        decreases rows - row,
    {
        let mut cells_row: Vec<Cell> = Vec::new();
        let mut column: usize = 0;
        while column < columns
            invariant
                row < rows,
                column <= columns,
                rows == grid@.len(),
                columns == column_count(grid@),
                states_of(cells_row@) =~= next_generation_row(grid@, row as int).take(
                    column as int,
                ),
            decreases columns - column,
        {
            let cell = new_cell_applying_rule_b3_s23(
                &grid.get_cell_info(&Coordinates::new(row, column)),
            );
            let ghost cells_before = cells_row@;
            cells_row.push(cell);
            proof {
                let expected = next_generation_row(grid@, row as int);
                assert(states_of(cells_row@) =~= states_of(cells_before).push(cell@));
                assert(expected.take(column + 1) =~= expected.take(column as int).push(
                    expected[column as int],
                ));
            }
            column += 1;
        }
        let ghost rows_before = cell_rows@;
        let new_row = Row::new(cells_row);
        cell_rows.push(new_row);
        proof {
            let expected = next_generation_of(grid@);
            assert(next_generation_row(grid@, row as int).take(columns as int)
                =~= next_generation_row(grid@, row as int));
            assert(rows_of(cell_rows@) =~= rows_of(rows_before).push(new_row@));
            assert(expected.take(row + 1) =~= expected.take(row as int).push(expected[row as int]));
        }
        row += 1;
    }
    Grid::new(cell_rows)
}

/// The cell that the rule B3/S23 makes of a cell.
pub fn new_cell_applying_rule_b3_s23(cell_info: &CellInfo) -> (cell: Cell)
    ensures
        cell@ == next_state(cell_info.state, cell_info.number_of_live_neighbors as nat),
{
    match cell_info.state {
        State::Live => match cell_info.number_of_live_neighbors {
            2 => Cell::live(),
            3 => Cell::live(),
            _ => Cell::dead(),
        },
        State::Dead => match cell_info.number_of_live_neighbors {
            3 => Cell::live(),
            _ => Cell::dead(),
        },
    }
}

} // verus!
