//! Running the game: a pattern on a dead background, shown generation by
//! generation.
use crate::cell::State;
use crate::coordinates::Coordinates;
use crate::grid::{Grid, uniform_grid};
use crate::next_generation::{next_generation, next_generation_of};
use crate::output::{CLEAR_SCREEN, Printer};
use crate::overlap::{OverlapError, overlap, overlap_of};
use crate::render::rendered;
use crate::settings::Settings;
use crate::timer::Timer;
use vstd::prelude::*;

verus! {

/// The row of the background at which the pattern is placed.
pub const PATTERN_ROW: usize = 13;

/// The column of the background at which the pattern is placed.
pub const PATTERN_COLUMN: usize = 29;

/// Where the left top corner of the pattern is placed on the background.
pub open spec fn pattern_position() -> Coordinates {
    Coordinates { row: PATTERN_ROW, column: PATTERN_COLUMN }
}

/// The pattern on a dead background of `rows` by `columns` cells, or why it
/// cannot be placed there.
pub open spec fn first_generation(rows: nat, columns: nat, pattern: Seq<Seq<State>>) -> Result<
    Seq<Seq<State>>,
    OverlapError,
> {
    overlap_of(uniform_grid(rows, columns, State::Dead), pattern, pattern_position())
}

/// The cells `steps` generations after `cells`.
pub open spec fn generation(cells: Seq<Seq<State>>, steps: nat) -> Seq<Seq<State>>
    decreases steps,
{
    if steps == 0 {
        cells
    } else {
        next_generation_of(generation(cells, (steps - 1) as nat))
    }
}

/// What a game of `generations` generations from `cells` writes: for each
/// generation in turn the control sequence that clears the screen and the
/// text form of the grid.
pub open spec fn frames(cells: Seq<Seq<State>>, generations: nat) -> Seq<char>
    decreases generations,
{
    if generations == 0 {
        Seq::empty()
    } else {
        frames(cells, (generations - 1) as nat) + CLEAR_SCREEN@ + rendered(
            generation(cells, (generations - 1) as nat),
        )
    }
}

/// The text form of the last generation shown by a game of `generations`
/// generations from `cells`, and the empty text for a game without
/// generations.
pub open spec fn last_frame(cells: Seq<Seq<State>>, generations: nat) -> Seq<char> {
    if generations == 0 {
        Seq::empty()
    } else {
        rendered(generation(cells, (generations - 1) as nat))
    }
}

/// Plays the game: places `pattern` on a dead background of the size in
/// `settings`, then for each generation clears `console`, writes the grid to
/// it, waits for the lifetime of a generation and steps to the next one.
/// Returns what was written last. Of a console that keeps a record the
/// contract says what was written to it.
pub fn play<P: Printer, T: Timer>(
    settings: &Settings,
    pattern: &Grid,
    console: &mut P,
    timer: &T,
) -> (output: String)
    requires
        first_generation(
            settings.back_grid_size.rows as nat,
            settings.back_grid_size.columns as nat,
            pattern@,
        ) is Ok,
    ensures
        output@ == last_frame(
            first_generation(
                settings.back_grid_size.rows as nat,
                settings.back_grid_size.columns as nat,
                pattern@,
            )->Ok_0,
            settings.generations as nat,
        ),
        final(console).keeps_record() == old(console).keeps_record(),
        old(console).keeps_record() ==> final(console).printed() == old(console).printed() + frames(
            first_generation(
                settings.back_grid_size.rows as nat,
                settings.back_grid_size.columns as nat,
                pattern@,
            )->Ok_0,
            settings.generations as nat,
        ),
{
    let back_grid = Grid::of_dead_cells(
        settings.back_grid_size.rows,
        settings.back_grid_size.columns,
    );
    let mut grid = overlap(&back_grid, pattern, &Coordinates::new(PATTERN_ROW, PATTERN_COLUMN));
    let ghost start = grid@;
    let mut output = String::new();
    let mut iter: u32 = 0;
    while iter < settings.generations
        invariant
            iter <= settings.generations,
            grid@ == generation(start, iter as nat),
            output@ == last_frame(start, iter as nat),
            console.keeps_record() == old(console).keeps_record(),
            console.keeps_record() ==> console.printed() == old(console).printed() + frames(
                start,
                iter as nat,
            ),
        decreases settings.generations - iter,
    {
        let ghost before = console.printed();
        output = grid.to_string();
        console.clear();
        console.print(&output);
        timer.wait(settings.generation_lifetime);
        grid = next_generation(&grid);
        iter += 1;
        assert(console.keeps_record() ==> console.printed() =~= old(console).printed() + frames(
            start,
            iter as nat,
        ));
    }
    output
}

} // verus!
