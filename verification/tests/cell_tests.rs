#![allow(unused_imports)]
use game_of_life::cell::{c, Cell, CellState, State, DEAD, LIVE};

#[test]
fn cell_a_cell_could_be_live() {
    let cell = Cell::live();

    assert!(cell.is_live());
}

#[test]
fn cell_a_cell_could_be_dead() {
    let cell = Cell::dead();

    assert!(cell.is_dead());
}

#[test]
fn cell_a_cell_can_be_created_using_its_state() {
    assert!(Cell::new(CellState::Live).is_live());
    assert!(Cell::new(CellState::Dead).is_dead());
}

#[test]
fn cell_a_cell_could_be_displayed_as_a_single_char_string() {
    assert_eq!(Cell::live().to_string(), LIVE.to_string());
    assert_eq!(Cell::dead().to_string(), DEAD.to_string());
}

#[test]
fn cell_a_cell_should_be_created_from_its_char_representation() {
    assert_eq!(c(LIVE), Cell::live());
    assert_eq!(c(DEAD), Cell::dead());
}

#[test]
fn cell_a_cell_should_be_converted_from_its_char_representation() {
    assert_eq!(Cell::try_from(LIVE).unwrap(), Cell::live());
    assert_eq!(Cell::try_from(DEAD).unwrap(), Cell::dead());

    let live_cell: Cell = LIVE.try_into().unwrap();
    let dead_cell: Cell = DEAD.try_into().unwrap();

    assert_eq!(live_cell, Cell::live());
    assert_eq!(dead_cell, Cell::dead());
}

#[test]
fn mod_a_cell_could_be_live() {
    let cell = Cell::live();

    assert!(cell.is_live());
}

#[test]
fn mod_a_cell_could_be_dead() {
    let cell = Cell::dead();

    assert!(cell.is_dead());
}

#[test]
fn mod_a_cell_can_be_created_using_its_state() {
    assert!(Cell::new(State::Live).is_live());
    assert!(Cell::new(State::Dead).is_dead());
}

#[test]
fn mod_a_cell_could_be_displayed_as_a_single_char_string() {
    assert_eq!(Cell::live().to_string(), LIVE.to_string());
    assert_eq!(Cell::dead().to_string(), DEAD.to_string());
}

#[test]
fn mod_a_cell_should_be_created_from_its_char_representation() {
    assert_eq!(c(LIVE), Cell::live());
    assert_eq!(c(DEAD), Cell::dead());
}

#[test]
fn mod_a_cell_should_be_converted_from_its_char_representation() {
    assert_eq!(Cell::try_from(LIVE).unwrap(), Cell::live());
    assert_eq!(Cell::try_from(DEAD).unwrap(), Cell::dead());

    let live_cell: Cell = LIVE.try_into().unwrap();
    let dead_cell: Cell = DEAD.try_into().unwrap();

    assert_eq!(live_cell, Cell::live());
    assert_eq!(dead_cell, Cell::dead());
}

#[test]
fn state_it_should_be_displayed() {
    assert_eq!(State::Live.to_string(), "⬜");
    assert_eq!(State::Dead.to_string(), "⬛");
}

#[test]
fn state_a_dead_cell_state_should_be_converted_from_its_char_representation() {
    assert_eq!(State::try_from(DEAD).unwrap(), State::Dead);
}

#[test]
fn state_a_live_cell_state_should_be_converted_from_its_char_representation() {
    assert_eq!(State::try_from(LIVE).unwrap(), State::Live);
}

#[test]
fn state_it_should_fail_trying_to_generate_a_cell_state_from_an_invalid_char() {
    let state = State::try_from('X');
    assert!(state.is_err());
}

#[test]
fn state_given_it_fails_to_generate_the_cell_state_from_a_char_it_should_show_the_invalid_char_in_the_error(
) {
    let error = State::try_from('X').unwrap_err();
    assert_eq!(error.invalid_char, 'X');
}

#[test]
fn cell_state_it_should_be_displayed() {
    assert_eq!(CellState::Live.to_string(), "⬜");
    assert_eq!(CellState::Dead.to_string(), "⬛");
}

#[test]
fn cell_state_a_dead_cell_state_should_be_converted_from_its_char_representation() {
    assert_eq!(CellState::try_from(DEAD).unwrap(), CellState::Dead);
}

#[test]
fn cell_state_a_live_cell_state_should_be_converted_from_its_char_representation() {
    assert_eq!(CellState::try_from(LIVE).unwrap(), CellState::Live);
}

#[test]
fn cell_state_it_should_fail_trying_to_generate_a_cell_state_from_an_invalid_char() {
    let state = CellState::try_from('X');
    assert!(state.is_err());
}

#[test]
fn cell_state_given_it_fails_to_generate_the_cell_state_from_a_char_it_should_show_the_invalid_char_in_the_error(
) {
    let error = CellState::try_from('X').unwrap_err();
    assert_eq!(error.invalid_char, 'X');
}
