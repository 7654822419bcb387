#![allow(unused_imports)]
use game_of_life::coordinates::Coordinates;
use game_of_life::grid::Grid;
use game_of_life::overlap::overlap;
use std::str::FromStr;

fn left_top_corner() -> Coordinates {
    Coordinates::new(0, 0)
}

#[test]
fn overlap_two_default_grids_returns_the_default_grid() {
    let back_grid = Grid::default();
    let front_grid = Grid::default();

    assert_eq!(
        overlap(&back_grid, &front_grid, &left_top_corner()),
        Grid::default()
    );
}

#[test]
fn overlap_two_empty_grids_returns_an_empty_grid() {
    let back_grid = Grid::new_empty();
    let front_grid = Grid::default();

    assert_eq!(
        overlap(&back_grid, &front_grid, &left_top_corner()),
        Grid::new_empty()
    );
}

#[test]
fn overlap_two_identical_grids_returns_the_same_grid() {
    let back_grid = Grid::of_dead_cells(1, 1);
    let front_grid = Grid::of_dead_cells(1, 1);

    assert_eq!(
        overlap(&back_grid, &front_grid, &left_top_corner()),
        Grid::of_dead_cells(1, 1)
    );
}

#[test]
fn overlap_smaller_grid_into_a_bigger_one() {
    let back_grid = Grid::from_str(
        "⬛⬛⬛
         ⬛⬛⬛
         ⬛⬛⬛",
    )
    .unwrap();

    let front_grid = Grid::from_str(
        "⬜⬜
         ⬜⬜",
    )
    .unwrap();

    assert_eq!(
        overlap(&back_grid, &front_grid, &left_top_corner()),
        Grid::from_str(
            "⬜⬜⬛
             ⬜⬜⬛
             ⬛⬛⬛",
        )
        .unwrap()
    );
}

#[test]
fn overlap_smaller_front_grid_that_fits_into_the_back_grid() {
    let back_grid = Grid::of_dead_cells(5, 5);
    let front_grid = Grid::of_live_cells(3, 3);

    assert_eq!(
        overlap(&back_grid, &front_grid, &Coordinates::new(2, 2)),
        Grid::from_str(
            "⬛⬛⬛⬛⬛
             ⬛⬛⬛⬛⬛
             ⬛⬛⬜⬜⬜
             ⬛⬛⬜⬜⬜
             ⬛⬛⬜⬜⬜",
        )
        .unwrap()
    );
}
