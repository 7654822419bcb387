#![allow(unused_imports)]
use game_of_life::coordinates::{CellCoordinates, Coordinates};
use game_of_life::size::{GridSize, Size};
use game_of_life::traverser::{GridTraverser, Traverser};

#[test]
fn traverser_for_an_empty_grid() {
    let mut traverser = Traverser::new(Size::new(0, 0));
    assert_eq!(traverser.next(), None);
}

#[test]
fn traverser_for_non_empty_grid() {
    let mut traverser = Traverser::new(Size::new(2, 3));
    assert_eq!(traverser.next(), Some(Coordinates::new(0, 0)));
    assert_eq!(traverser.next(), Some(Coordinates::new(0, 1)));
    assert_eq!(traverser.next(), Some(Coordinates::new(0, 2)));
    assert_eq!(traverser.next(), Some(Coordinates::new(1, 0)));
    assert_eq!(traverser.next(), Some(Coordinates::new(1, 1)));
    assert_eq!(traverser.next(), Some(Coordinates::new(1, 2)));
    assert_eq!(traverser.next(), None);
}

#[test]
fn grid_traverser_for_an_empty_grid() {
    let mut traverser = GridTraverser::new(GridSize::new(0, 0));
    assert_eq!(traverser.next(), None);
}

#[test]
fn grid_traverser_for_non_empty_grid() {
    let mut traverser = GridTraverser::new(GridSize::new(2, 3));
    assert_eq!(traverser.next(), Some(CellCoordinates::new(0, 0)));
    assert_eq!(traverser.next(), Some(CellCoordinates::new(0, 1)));
    assert_eq!(traverser.next(), Some(CellCoordinates::new(0, 2)));
    assert_eq!(traverser.next(), Some(CellCoordinates::new(1, 0)));
    assert_eq!(traverser.next(), Some(CellCoordinates::new(1, 1)));
    assert_eq!(traverser.next(), Some(CellCoordinates::new(1, 2)));
    assert_eq!(traverser.next(), None);
}
