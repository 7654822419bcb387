//! What holds of every grid: of its neighbourhoods and of pattern placement.
use crate::cell::State;
use crate::coordinates::Coordinates;
use crate::grid::{column_count, has_no_cell, is_position, is_rectangular, row_count, uniform_grid};
use crate::neighbor::{
    Neighbor, all_neighbors, count_live, lemma_count_live_bound, live_neighbors, neighbor_column,
    neighbor_row, neighbor_state, neighbor_states,
};
use crate::next_generation::next_generation_of;
use crate::overlap::{OverlapError, is_overlapped, overlap_of, stamped};
use vstd::prelude::*;

verus! {

/// Every neighbour of a position of a grid is a position of that grid: the
/// edges wrap, so no neighbour is missing.
pub proof fn lemma_neighbor_is_position(
    cells: Seq<Seq<State>>,
    row: int,
    column: int,
    neighbor: Neighbor,
)
    requires
        is_position(cells, row, column),
    ensures
        is_position(
            cells,
            neighbor_row(cells, row, neighbor),
            neighbor_column(cells, column, neighbor),
        ),
{
}

/// No cell has more than eight live neighbours.
pub proof fn lemma_live_neighbors_at_most_eight(cells: Seq<Seq<State>>, row: int, column: int)
    ensures
        live_neighbors(cells, row, column) <= 8,
{
    assert(all_neighbors().len() == 8);
    lemma_count_live_bound(neighbor_states(cells, row, column));
}

/// On a grid of live cells with two rows and two columns at least, every
/// cell has eight live neighbours, also those on the edges and in the
/// corners.
pub proof fn lemma_live_grid_has_eight_live_neighbors(
    rows: nat,
    columns: nat,
    row: int,
    column: int,
)
    requires
        rows >= 2,
        columns >= 2,
        0 <= row < rows,
        0 <= column < columns,
    ensures
        live_neighbors(uniform_grid(rows, columns, State::Live), row, column) == 8,
{
    let cells = uniform_grid(rows, columns, State::Live);
    let states = neighbor_states(cells, row, column);
    assert(all_neighbors().len() == 8);
    assert forall|k: int| 0 <= k < 8 implies states[k] == State::Live by {
        let neighbor = all_neighbors()[k];
        lemma_neighbor_is_position(cells, row, column, neighbor);
        assert(states[k] == neighbor_state(cells, row, column, neighbor));
    }
    lemma_count_all_live(states);
}

/// Where all of `states` are live, as many are live as there are.
pub proof fn lemma_count_all_live(states: Seq<State>)
    requires
        forall|k: int| 0 <= k < states.len() ==> states[k] == State::Live,
    ensures
        count_live(states) == states.len(),
    decreases states.len(),
{
    if states.len() > 0 {
        lemma_count_all_live(states.drop_last());
    }
}

/// The only cell of a grid of one cell has no live neighbour, whatever its
/// own state.
pub proof fn lemma_single_cell_has_no_live_neighbor(cells: Seq<Seq<State>>)
    requires
        row_count(cells) == 1,
        column_count(cells) == 1,
    ensures
        live_neighbors(cells, 0, 0) == 0,
{
}

/// The next generation of a grid has the rows and the columns of that grid,
/// is rectangular, and has no cell where the grid has none.
pub proof fn lemma_next_generation_keeps_dimensions(cells: Seq<Seq<State>>)
    ensures
        row_count(next_generation_of(cells)) == row_count(cells),
        column_count(next_generation_of(cells)) == column_count(cells),
        is_rectangular(next_generation_of(cells)),
        has_no_cell(next_generation_of(cells)) == has_no_cell(cells),
{
}

/// A front grid placed at the left top corner of a back grid of its own
/// size replaces it: the result is the front grid.
pub proof fn lemma_overlap_same_size(back: Seq<Seq<State>>, front: Seq<Seq<State>>)
    requires
        is_rectangular(back),
        is_rectangular(front),
        row_count(back) == row_count(front),
        column_count(back) == column_count(front),
        !has_no_cell(back),
    ensures
        overlap_of(back, front, Coordinates { row: 0, column: 0 }) == Ok::<
            Seq<Seq<State>>,
            OverlapError,
        >(front),
        stamped(back, front, Coordinates { row: 0, column: 0 }) == front,
{
    let origin = Coordinates { row: 0, column: 0 };
    let stamp = stamped(back, front, origin);
    assert forall|row: int| 0 <= row < front.len() implies #[trigger] stamp[row] == front[row] by {
        assert(front[row].len() == front[0].len());
        assert(stamp[row] =~= front[row]);
    }
    assert(stamp =~= front);
}

/// A front grid without cells leaves the back grid as it is, wherever it
/// is placed.
pub proof fn lemma_overlap_empty_front(
    back: Seq<Seq<State>>,
    front: Seq<Seq<State>>,
    position: Coordinates,
)
    requires
        !has_no_cell(back),
        has_no_cell(front),
    ensures
        overlap_of(back, front, position) == Ok::<Seq<Seq<State>>, OverlapError>(back),
{
}

/// On a back grid without cells every front grid gives the grid without
/// rows, wherever it is placed.
pub proof fn lemma_overlap_empty_back(
    back: Seq<Seq<State>>,
    front: Seq<Seq<State>>,
    position: Coordinates,
)
    requires
        has_no_cell(back),
    ensures
        overlap_of(back, front, position) == Ok::<Seq<Seq<State>>, OverlapError>(Seq::empty()),
{
}

/// A front grid that reaches beyond the last row or the last column of the
/// back grid cannot be placed, unless one of the two has no cell.
pub proof fn lemma_overlap_beyond_back(
    back: Seq<Seq<State>>,
    front: Seq<Seq<State>>,
    position: Coordinates,
)
    requires
        !has_no_cell(back),
        !has_no_cell(front),
        position.row + row_count(front) > row_count(back) || position.column + column_count(front)
            > column_count(back),
    ensures
        overlap_of(back, front, position) is Err,
        is_position(back, position.row as int, position.column as int) ==> overlap_of(
            back,
            front,
            position,
        ) == Err::<Seq<Seq<State>>, OverlapError>(OverlapError::FrontGridDoesNotFit),
{
}

/// Placing a front grid keeps the size of the back grid, and changes no
/// cell that the front grid does not cover.
pub proof fn lemma_stamped_keeps_uncovered(
    back: Seq<Seq<State>>,
    front: Seq<Seq<State>>,
    position: Coordinates,
    row: int,
    column: int,
)
    requires
        is_position(back, row, column),
    ensures
        row_count(stamped(back, front, position)) == row_count(back),
        column_count(stamped(back, front, position)) == column_count(back),
        !is_overlapped(front, position, row, column) ==> stamped(
            back,
            front,
            position,
        )[row][column] == back[row][column],
        is_overlapped(front, position, row, column) ==> stamped(
            back,
            front,
            position,
        )[row][column] == front[row - position.row][column - position.column],
{
}

} // verus!
