#![allow(unused_imports)]
use game_of_life::cell::{c, Cell};
use game_of_life::row::{CellRow, Row};

#[test]
fn cell_row_it_contains_ordered_cells() {
    let cell_row = CellRow::new(vec![Cell::live()]);

    assert_eq!(*cell_row.get_cell(0), Cell::live());
}

#[test]
fn cell_row_it_contains_a_fixed_amount_of_cells() {
    let cell_row = CellRow::new(vec![Cell::live()]);

    assert_eq!(cell_row.len(), 1);
}

#[test]
fn cell_row_there_is_a_short_way_to_build_a_cell_row_of_only_dead_cells() {
    assert_eq!(CellRow::of_dead_cells(1), CellRow::new(vec![Cell::dead()]));
}

#[test]
fn cell_row_there_is_a_short_way_to_build_a_cell_row_of_only_live_cells() {
    assert_eq!(CellRow::of_live_cells(1), CellRow::new(vec![Cell::live()]));
}

#[test]
fn cell_row_it_can_validate_if_a_given_position_is_valid_in_the_row_starting_at_zero() {
    // Valid positions
    assert!(CellRow::of_dead_cells(10).position_is_valid(0));
    assert!(CellRow::of_dead_cells(10).position_is_valid(9));

    // Invalid positions
    assert!(!CellRow::of_dead_cells(1).position_is_valid(10));
}

#[test]
fn cell_row_it_should_be_displayed() {
    assert_eq!(
        CellRow::new(vec![c('⬜'), c('⬛'), c('⬛')]).to_string(),
        "⬜⬛⬛"
    );
}

#[test]
fn cell_row_it_should_be_generated_from_a_string() {
    assert_eq!(
        "⬛⬜".parse::<CellRow>().unwrap(),
        CellRow::new(vec![c('⬛'), c('⬜')])
    );
}

#[test]
fn cell_row_it_should_fail_trying_to_generate_it_from_an_invalid_string() {
    assert!("X".parse::<CellRow>().is_err());
}

#[test]
fn cell_row_given_it_fails_to_generate_the_cell_row_from_a_string_it_should_show_the_invalid_char_in_the_error(
) {
    assert_eq!("X".parse::<CellRow>().unwrap_err().invalid_char, 'X');
}

#[test]
fn row_it_contains_ordered_cells() {
    let cell_row = Row::new(vec![Cell::live()]);

    assert_eq!(*cell_row.get_cell(0), Cell::live());
}

#[test]
fn row_it_contains_a_fixed_amount_of_cells() {
    let cell_row = Row::new(vec![Cell::live()]);

    assert_eq!(cell_row.len(), 1);
}

#[test]
fn row_there_is_a_short_way_to_build_a_cell_row_of_only_dead_cells() {
    assert_eq!(Row::of_dead_cells(1), Row::new(vec![Cell::dead()]));
}

#[test]
fn row_there_is_a_short_way_to_build_a_cell_row_of_only_live_cells() {
    assert_eq!(Row::of_live_cells(1), Row::new(vec![Cell::live()]));
}

#[test]
fn row_it_can_validate_if_a_given_position_is_valid_in_the_row_starting_at_zero() {
    // Valid positions
    assert!(Row::of_dead_cells(10).position_is_valid(0));
    assert!(Row::of_dead_cells(10).position_is_valid(9));

    // Invalid positions
    assert!(!Row::of_dead_cells(1).position_is_valid(10));
}

#[test]
fn row_it_should_be_displayed() {
    assert_eq!(
        Row::new(vec![c('⬜'), c('⬛'), c('⬛')]).to_string(),
        "⬜⬛⬛"
    );
}

#[test]
fn row_it_should_be_generated_from_a_string() {
    assert_eq!(
        "⬛⬜".parse::<Row>().unwrap(),
        Row::new(vec![c('⬛'), c('⬜')])
    );
}

#[test]
fn row_it_should_fail_trying_to_generate_it_from_an_invalid_string() {
    assert!("X".parse::<Row>().is_err());
}

#[test]
fn row_given_it_fails_to_generate_the_cell_row_from_a_string_it_should_show_the_invalid_char_in_the_error(
) {
    assert_eq!("X".parse::<Row>().unwrap_err().invalid_char, 'X');
}
