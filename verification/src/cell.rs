//! The two-valued cell and its canonical glyphs.
use vstd::prelude::*;
use vstd::std_specs::convert::TryFromSpecImpl;

verus! {

/// Glyph of a live cell.
pub const LIVE: char = '⬜';

/// Glyph of a dead cell.
pub const DEAD: char = '⬛';

/// The state of a cell.
#[derive(Debug, Clone, Copy, PartialEq, Eq, Structural)]
pub enum State {
    Live,
    Dead,
}

/// Longer name of [`State`].
pub type CellState = State;

/// The glyph that was read where a cell glyph was expected.
#[derive(Debug, Clone, Copy, PartialEq, Eq, Structural)]
pub struct ParseCellStateFromCharError {
    pub invalid_char: char,
}

/// Another name of [`ParseCellStateFromCharError`].
pub type InvalidCellCharRepresentation = ParseCellStateFromCharError;

/// Whether `glyph` is one of the two cell glyphs.
pub open spec fn is_glyph(glyph: char) -> bool {
    glyph == LIVE || glyph == DEAD
}

/// The state that a cell glyph stands for.
pub open spec fn state_of_glyph(glyph: char) -> State
    recommends
        is_glyph(glyph),
{
    if glyph == LIVE {
        State::Live
    } else {
        State::Dead
    }
}

/// The glyph that stands for a state.
pub open spec fn glyph_of_state(state: State) -> char {
    match state {
        State::Live => LIVE,
        State::Dead => DEAD,
    }
}

/// What reading one glyph gives: its state, or the glyph itself as the error.
pub open spec fn parse_state(glyph: char) -> Result<State, ParseCellStateFromCharError> {
    if is_glyph(glyph) {
        Ok(state_of_glyph(glyph))
    } else {
        Err(ParseCellStateFromCharError { invalid_char: glyph })
    }
}

impl TryFrom<char> for State {
    type Error = ParseCellStateFromCharError;

    fn try_from(state: char) -> (result: Result<Self, Self::Error>) {
        if state == LIVE {
            Ok(State::Live)
        } else if state == DEAD {
            Ok(State::Dead)
        } else {
            Err(ParseCellStateFromCharError { invalid_char: state })
        }
    }
}

impl TryFromSpecImpl<char> for State {
    open spec fn obeys_try_from_spec() -> bool {
        true
    }

    open spec fn try_from_spec(state: char) -> Result<Self, Self::Error> {
        parse_state(state)
    }
}

impl State {
    /// The glyph of this state as a one-character string.
    pub fn to_string(&self) -> (text: String)
        ensures
            text@ == seq![glyph_of_state(*self)],
    {
        match self {
            State::Live => {
                proof {
                    reveal_strlit("⬜");
                }
                let text = String::from_str("⬜");
                assert(text@ =~= seq![LIVE]);
                text
            },
            State::Dead => {
                proof {
                    reveal_strlit("⬛");
                }
                let text = String::from_str("⬛");
                assert(text@ =~= seq![DEAD]);
                text
            },
        }
    }
}

/// One cell of a grid.
#[derive(Debug, Clone, Copy, PartialEq, Eq)]
pub struct Cell {
    state: State,
}

impl View for Cell {
    type V = State;

    closed spec fn view(&self) -> State {
        self.state
    }
}

/// The cell whose state is `state`.
pub closed spec fn cell_of(state: State) -> Cell {
    Cell { state }
}

/// What reading one glyph as a cell gives.
pub open spec fn parse_cell(glyph: char) -> Result<Cell, ParseCellStateFromCharError> {
    match parse_state(glyph) {
        Ok(state) => Ok(cell_of(state)),
        Err(error) => Err(error),
    }
}

/// A cell is what its state is: `cell_of` and the view are inverse to each other.
pub proof fn lemma_cell_of_view(state: State, cell: Cell)
    ensures
        cell_of(state)@ == state,
        cell_of(cell@) == cell,
{
}

/// The cell that `state` is the glyph of.
pub fn c(state: char) -> (cell: Cell)
    requires
        is_glyph(state),
    ensures
        cell@ == state_of_glyph(state),
{
    if state == LIVE {
        Cell::live()
    } else {
        Cell::dead()
    }
}

impl TryFrom<char> for Cell {
    type Error = ParseCellStateFromCharError;

    fn try_from(state: char) -> (result: Result<Self, Self::Error>) {
        match State::try_from(state) {
            Ok(state) => Ok(Cell::new(state)),
            Err(error) => Err(error),
        }
    }
}

impl TryFromSpecImpl<char> for Cell {
    open spec fn obeys_try_from_spec() -> bool {
        true
    }

    open spec fn try_from_spec(state: char) -> Result<Self, Self::Error> {
        parse_cell(state)
    }
}

impl Cell {
    /// A live cell.
    pub fn live() -> (cell: Self)
        ensures
            cell@ == State::Live,
    {
        Self::new(State::Live)
    }

    /// A dead cell.
    pub fn dead() -> (cell: Self)
        ensures
            cell@ == State::Dead,
    {
        Self::new(State::Dead)
    }

    /// The cell whose state is `state`.
    pub fn new(state: State) -> (cell: Self)
        ensures
            cell@ == state,
            cell == cell_of(state),
    {
        Self { state }
    }

    /// Whether this cell is live.
    pub fn is_live(&self) -> (live: bool)
        ensures
            live == (self@ == State::Live),
    {
        self.state == State::Live
    }

    /// Whether this cell is dead.
    pub fn is_dead(&self) -> (dead: bool)
        ensures
            dead == (self@ == State::Dead),
    {
        self.state == State::Dead
    }

    /// The state of this cell.
    pub fn state(&self) -> (state: State)
        ensures
            state == self@,
    {
        self.state
    }

    /// The glyph of this cell as a one-character string.
    pub fn to_string(&self) -> (text: String)
        ensures
            text@ == seq![glyph_of_state(self@)],
    {
        self.state.to_string()
    }
}

} // verus!
