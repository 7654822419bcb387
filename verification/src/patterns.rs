//! Well-known patterns.
use crate::cell::{State, c};
use crate::grid::{Grid, rows_of};
use crate::row::Row;
use vstd::prelude::*;

verus! {

/// The cells of the glider.
pub open spec fn glider_cells() -> Seq<Seq<State>> {
    seq![
        seq![State::Dead, State::Live, State::Dead],
        seq![State::Dead, State::Dead, State::Live],
        seq![State::Live, State::Live, State::Live],
    ]
}

/// The glider: five live cells that move one cell down and to the right
/// every four generations.
pub fn glider() -> (grid: Grid)
    ensures
        grid@ == glider_cells(),
{
    let top = Row::new(vec![c('⬛'), c('⬜'), c('⬛')]);
    let middle = Row::new(vec![c('⬛'), c('⬛'), c('⬜')]);
    let bottom = Row::new(vec![c('⬜'), c('⬜'), c('⬜')]);
    assert(top@ =~= glider_cells()[0]);
    assert(middle@ =~= glider_cells()[1]);
    assert(bottom@ =~= glider_cells()[2]);
    let cell_rows = vec![top, middle, bottom];
    assert(rows_of(cell_rows@) =~= glider_cells());
    Grid::new(cell_rows)
}

} // verus!
