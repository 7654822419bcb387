#![allow(unused_imports)]
use game_of_life::cell::Cell;
use game_of_life::grid::Grid;
use game_of_life::render::render_grid;
use game_of_life::row::CellRow;

#[test]
fn render_it_should_render_an_empty_grid() {
    let grid = Grid::default();

    println!("{}", grid.to_string());

    assert_eq!(render_grid(&grid), "");
}

#[test]
fn render_it_should_render_a_grid_with_only_one_live_cell() {
    let grid = Grid::new(vec![CellRow::new(vec![Cell::live()])]);

    assert_eq!(render_grid(&grid), "⬜\n");
}

#[test]
fn render_it_should_render_a_grid_with_only_one_dead_cell() {
    let grid = Grid::new(vec![CellRow::new(vec![Cell::dead()])]);

    assert_eq!(render_grid(&grid), "⬛\n");
}

#[test]
fn render_it_should_render_a_3x3_grid() {
    let grid = Grid::new(vec![
        CellRow::new(vec![Cell::live(), Cell::live(), Cell::live()]),
        CellRow::new(vec![Cell::dead(), Cell::dead(), Cell::dead()]),
        CellRow::new(vec![Cell::live(), Cell::live(), Cell::live()]),
    ]);

    assert_eq!(render_grid(&grid), "⬜⬜⬜\n⬛⬛⬛\n⬜⬜⬜\n");
}

#[test]
fn it_should_print_an_empty_grid() {
    let grid = Grid::default();

    assert_eq!(render_grid(&grid), "");
}

#[test]
fn it_should_print_a_grid_with_only_one_live_cell() {
    let grid = Grid::new(vec![CellRow::new(vec![Cell::live()])]);

    assert_eq!(render_grid(&grid), "⬜\n");
}

#[test]
fn it_should_print_a_grid_with_only_one_dead_cell() {
    let grid = Grid::new(vec![CellRow::new(vec![Cell::dead()])]);

    assert_eq!(render_grid(&grid), "⬛\n");
}

#[test]
fn it_should_print_a_3x3_grid() {
    let grid = Grid::new(vec![
        CellRow::new(vec![Cell::live(), Cell::live(), Cell::live()]),
        CellRow::new(vec![Cell::dead(), Cell::dead(), Cell::dead()]),
        CellRow::new(vec![Cell::live(), Cell::live(), Cell::live()]),
    ]);

    assert_eq!(render_grid(&grid), "⬜⬜⬜\n⬛⬛⬛\n⬜⬜⬜\n");
}
