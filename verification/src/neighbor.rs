//! The eight neighbours of a cell on a grid whose edges are stitched
//! together: the top edge to the bottom edge and the left edge to the right.
use crate::cell::{Cell, State};
use crate::coordinates::Coordinates;
use crate::grid::{CellInfo, Grid, column_count, is_position, row_count};
use vstd::prelude::*;

verus! {

/// The eight directions in which a cell has a neighbour.
#[derive(Debug, Clone, Copy, PartialEq, Eq, Structural)]
pub enum Neighbor {
    LetTop,
    Top,
    RightTop,
    Left,
    Right,
    LeftBottom,
    Bottom,
    RightBottom,
}

/// How many rows and columns lie between a cell and one of its neighbours.
pub struct NeighborDistance {
    row_distance: i64,
    column_distance: i64,
}

/// The eight directions, row by row from the left top to the right bottom.
pub open spec fn all_neighbors() -> Seq<Neighbor> {
    seq![
        Neighbor::LetTop,
        Neighbor::Top,
        Neighbor::RightTop,
        Neighbor::Left,
        Neighbor::Right,
        Neighbor::LeftBottom,
        Neighbor::Bottom,
        Neighbor::RightBottom,
    ]
}

/// The rows between a cell and its neighbour: -1 above, 1 below.
pub open spec fn row_distance(neighbor: Neighbor) -> int {
    match neighbor {
        Neighbor::LetTop | Neighbor::Top | Neighbor::RightTop => -1,
        Neighbor::Left | Neighbor::Right => 0,
        Neighbor::LeftBottom | Neighbor::Bottom | Neighbor::RightBottom => 1,
    }
}

/// The columns between a cell and its neighbour: -1 to the left, 1 to the right.
pub open spec fn column_distance(neighbor: Neighbor) -> int {
    match neighbor {
        Neighbor::LetTop | Neighbor::Left | Neighbor::LeftBottom => -1,
        Neighbor::Top | Neighbor::Bottom => 0,
        Neighbor::RightTop | Neighbor::Right | Neighbor::RightBottom => 1,
    }
}

/// The index `distance` away from `index` on an axis of `count` indices
/// whose ends are joined: what falls below zero becomes the last index, and
/// what exceeds the last index becomes zero.
pub open spec fn wrap(index: int, distance: int, count: int) -> int {
    let moved = index + distance;
    if moved < 0 {
        count - 1
    } else if moved > count - 1 {
        0
    } else {
        moved
    }
}

/// The row of the neighbour of `(row, column)` in direction `neighbor`.
pub open spec fn neighbor_row(cells: Seq<Seq<State>>, row: int, neighbor: Neighbor) -> int {
    wrap(row, row_distance(neighbor), row_count(cells) as int)
}

/// The column of the neighbour of `(row, column)` in direction `neighbor`.
pub open spec fn neighbor_column(cells: Seq<Seq<State>>, column: int, neighbor: Neighbor) -> int {
    wrap(column, column_distance(neighbor), column_count(cells) as int)
}

/// The state of the neighbour of `(row, column)` in direction `neighbor`.
pub open spec fn neighbor_state(
    cells: Seq<Seq<State>>,
    row: int,
    column: int,
    neighbor: Neighbor,
) -> State {
    cells[neighbor_row(cells, row, neighbor)][neighbor_column(cells, column, neighbor)]
}

/// The states of the eight neighbours of `(row, column)`, in the order of
/// `all_neighbors`.
pub open spec fn neighbor_states(cells: Seq<Seq<State>>, row: int, column: int) -> Seq<State> {
    all_neighbors().map_values(|neighbor: Neighbor| neighbor_state(cells, row, column, neighbor))
}

/// The states of a sequence of borrowed cells.
pub open spec fn states_of_cells(cells: Seq<&Cell>) -> Seq<State> {
    cells.map_values(|cell: &Cell| cell@)
}

/// How many of `states` are live.
pub open spec fn count_live(states: Seq<State>) -> nat
    decreases states.len(),
{
    if states.len() == 0 {
        0
    } else {
        count_live(states.drop_last()) + if states.last() == State::Live {
            1nat
        } else {
            0nat
        }
    }
}

/// The number of live neighbours of the cell at `(row, column)`. The only
/// cell of a grid of one cell has none: it is not its own neighbour.
pub open spec fn live_neighbors(cells: Seq<Seq<State>>, row: int, column: int) -> nat {
    if row_count(cells) == 1 && column_count(cells) == 1 {
        0
    } else {
        count_live(neighbor_states(cells, row, column))
    }
}

/// No more of `states` are live than there are.
pub proof fn lemma_count_live_bound(states: Seq<State>)
    ensures
        count_live(states) <= states.len(),
    decreases states.len(),
{
    if states.len() > 0 {
        lemma_count_live_bound(states.drop_last());
    }
}

/// The eight directions.
pub fn neighbors() -> (list: Vec<Neighbor>)
    ensures
        list@ == all_neighbors(),
{
    let list = vec![
        Neighbor::LetTop,
        Neighbor::Top,
        Neighbor::RightTop,
        Neighbor::Left,
        Neighbor::Right,
        Neighbor::LeftBottom,
        Neighbor::Bottom,
        Neighbor::RightBottom,
    ];
    assert(list@ =~= all_neighbors());
    list
}

impl View for NeighborDistance {
    type V = (int, int);

    closed spec fn view(&self) -> (int, int) {
        (self.row_distance as int, self.column_distance as int)
    }
}

impl NeighborDistance {
    /// A distance is one step at most on each axis.
    #[verifier::type_invariant]
    pub open spec fn well_formed(&self) -> bool {
        -1 <= self@.0 <= 1 && -1 <= self@.1 <= 1
    }

    pub fn new(neighbor: &Neighbor) -> (distance: Self)
        ensures
            distance@ == (row_distance(*neighbor), column_distance(*neighbor)),
    {
        match neighbor {
            Neighbor::LetTop => Self { row_distance: -1, column_distance: -1 },
            Neighbor::Top => Self { row_distance: -1, column_distance: 0 },
            Neighbor::RightTop => Self { row_distance: -1, column_distance: 1 },
            Neighbor::Left => Self { row_distance: 0, column_distance: -1 },
            Neighbor::Right => Self { row_distance: 0, column_distance: 1 },
            Neighbor::LeftBottom => Self { row_distance: 1, column_distance: -1 },
            Neighbor::Bottom => Self { row_distance: 1, column_distance: 0 },
            Neighbor::RightBottom => Self { row_distance: 1, column_distance: 1 },
        }
    }

    /// The index `distance` away from `index` on a joined axis of `count` indices.
    fn wrap_index(index: usize, distance: i64, count: usize) -> (wrapped: usize)
        requires
            index < count,
            -1 <= distance <= 1,
        ensures
            wrapped == wrap(index as int, distance as int, count as int),
            wrapped < count,
    {
        if distance < 0 {
            if index == 0 {
                count - 1
            } else {
                index - 1
            }
        } else if distance > 0 {
            if index == count - 1 {
                0
            } else {
                index + 1
            }
        } else {
            index
        }
    }
}

impl Grid {
    /// The position `distance` away from `cell_coordinates` on this grid,
    /// which must hold the cell.
    pub fn cell_coordinate_translate(
        &self,
        cell_coordinates: &Coordinates,
        distance: &NeighborDistance,
    ) -> (moved: Coordinates)
        requires
            is_position(self@, cell_coordinates.row as int, cell_coordinates.column as int),
        ensures
            moved.row == wrap(
                cell_coordinates.row as int,
                distance@.0,
                row_count(self@) as int,
            ),
            moved.column == wrap(
                cell_coordinates.column as int,
                distance@.1,
                column_count(self@) as int,
            ),
            is_position(self@, moved.row as int, moved.column as int),
    {
        proof {
            use_type_invariant(distance);
        }
        let row = NeighborDistance::wrap_index(
            cell_coordinates.row,
            distance.row_distance,
            self.rows(),
        );
        let column = NeighborDistance::wrap_index(
            cell_coordinates.column,
            distance.column_distance,
            self.columns(),
        );
        Coordinates::new(row, column)
    }

    /// The neighbour of the cell at `cell_coordinate` in direction `neighbor`.
    pub fn get_neighbor(&self, cell_coordinate: &Coordinates, neighbor: &Neighbor) -> (cell: &Cell)
        requires
            is_position(self@, cell_coordinate.row as int, cell_coordinate.column as int),
        ensures
            cell@ == neighbor_state(
                self@,
                cell_coordinate.row as int,
                cell_coordinate.column as int,
                *neighbor,
            ),
    {
        self.get_cell(
            &self.cell_coordinate_translate(cell_coordinate, &NeighborDistance::new(neighbor)),
        )
    }

    /// The eight neighbours of the cell at `cell_coordinates`.
    pub fn get_neighbors(&self, cell_coordinates: &Coordinates) -> (cells: Vec<&Cell>)
        requires
            is_position(self@, cell_coordinates.row as int, cell_coordinates.column as int),
        ensures
            cells@.len() == 8,
            states_of_cells(cells@) == neighbor_states(
                self@,
                cell_coordinates.row as int,
                cell_coordinates.column as int,
            ),
    {
        let directions = neighbors();
        let ghost expected = neighbor_states(
            self@,
            cell_coordinates.row as int,
            cell_coordinates.column as int,
        );
        let mut cells: Vec<&Cell> = Vec::new();
        let mut index: usize = 0;
        while index < directions.len()
            invariant
                index <= directions.len(),
                directions@ == all_neighbors(),
                is_position(self@, cell_coordinates.row as int, cell_coordinates.column as int),
                expected == neighbor_states(
                    self@,
                    cell_coordinates.row as int,
                    cell_coordinates.column as int,
                ),
                states_of_cells(cells@) == expected.take(index as int),
            decreases directions.len() - index,
        {
            let ghost before = cells@;
            let cell = self.get_neighbor(cell_coordinates, &directions[index]);
            cells.push(cell);
            assert(states_of_cells(cells@) =~= expected.take(index + 1)) by {
                assert(cells@ =~= before.push(cell));
                assert(expected.len() == directions@.len());
                assert(states_of_cells(before).len() == before.len());
                assert forall|i: int| 0 <= i < index + 1 implies states_of_cells(cells@)[i]
                    == expected[i] by {
                    if i < index {
                        assert(states_of_cells(before)[i] == expected.take(index as int)[i]);
                    } else {
                        assert(expected[i] == neighbor_state(
                            self@,
                            cell_coordinates.row as int,
                            cell_coordinates.column as int,
                            directions@[i],
                        ));
                    }
                }
            }
            index += 1;
        }
        assert(expected.take(index as int) =~= expected);
        assert(states_of_cells(cells@).len() == cells@.len());
        assert(all_neighbors().len() == 8);
        cells
    }

    /// The number of live neighbours of the cell at `cell_coordinates`.
    pub fn number_of_live_neighbors_for(&self, cell_coordinates: &Coordinates) -> (count: usize)
        requires
            is_position(self@, cell_coordinates.row as int, cell_coordinates.column as int),
        ensures
            count == live_neighbors(
                self@,
                cell_coordinates.row as int,
                cell_coordinates.column as int,
            ),
            count <= 8,
    {
        if self.rows() == 1 && self.columns() == 1 {
            return 0;
        }
        let neighbors = self.get_neighbors(cell_coordinates);
        let ghost states = states_of_cells(neighbors@);
        let mut live_neighbors: usize = 0;
        let mut index: usize = 0;
        assert(states.take(0) =~= Seq::<State>::empty());
        while index < neighbors.len()
            invariant
                index <= neighbors.len(),
                neighbors.len() == 8,
                states == states_of_cells(neighbors@),
                live_neighbors == count_live(states.take(index as int)),
                live_neighbors <= index,
            decreases neighbors.len() - index,
        {
            proof {
                assert(states.take(index + 1).drop_last() =~= states.take(index as int));
                assert(states.take(index + 1).last() == neighbors@[index as int]@);
            }
            if neighbors[index].is_live() {
                live_neighbors += 1;
            }
            index += 1;
        }
        assert(states.take(index as int) =~= states);
        live_neighbors
    }

    /// The state of the cell at `cell_coordinates` and the number of its live
    /// neighbours.
    pub fn get_cell_info(&self, cell_coordinates: &Coordinates) -> (info: CellInfo)
        requires
            is_position(self@, cell_coordinates.row as int, cell_coordinates.column as int),
        ensures
            info.number_of_live_neighbors == live_neighbors(
                self@,
                cell_coordinates.row as int,
                cell_coordinates.column as int,
            ),
            info.state == self@[cell_coordinates.row as int][cell_coordinates.column as int],
    {
        CellInfo {
            number_of_live_neighbors: self.number_of_live_neighbors_for(cell_coordinates),
            state: self.get_cell(cell_coordinates).state(),
        }
    }
}

} // verus!
