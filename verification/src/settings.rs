//! What a run of the game is configured with.
use crate::size::Size;
use std::time::Duration;
use vstd::prelude::*;

verus! {

/// The settings of one run of the game.
pub struct Settings {
    /// The size of the background grid.
    pub back_grid_size: Size,
    /// The number of generations to run the game for.
    pub generations: u32,
    /// The time that each generation is shown.
    pub generation_lifetime: Duration,
}

} // verus!
