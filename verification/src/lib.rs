//! Conway's Game of Life on a toroidal grid: cells, rows, grids, the
//! generation rule, pattern placement and the pattern text format.
pub mod arguments;
pub mod cell;
pub mod coordinates;
pub mod game;
pub mod grid;
pub mod laws;
pub mod neighbor;
pub mod next_generation;
pub mod output;
pub mod overlap;
pub mod parse;
pub mod patterns;
pub mod render;
pub mod round_trip;
pub mod row;
pub mod settings;
pub mod size;
pub mod text;
pub mod timer;
pub mod traverser;
