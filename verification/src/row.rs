//! A row of cells and its one-line text form.
use crate::cell::{
    Cell, ParseCellStateFromCharError, State, glyph_of_state, lemma_cell_of_view, parse_state,
    state_of_glyph,
};
use crate::text::{chars_of, trim, trim_bounds};
use std::str::FromStr;
use vstd::prelude::*;

verus! {

/// A fixed-length sequence of cells.
#[derive(Debug, PartialEq, Eq)]
pub struct Row {
    cells: Vec<Cell>,
}

/// Longer name of [`Row`].
pub type CellRow = Row;

/// The states of a sequence of cells.
pub open spec fn states_of(cells: Seq<Cell>) -> Seq<State> {
    cells.map_values(|cell: Cell| cell@)
}

/// The text form of a row: the glyph of each state, in order.
pub open spec fn glyphs_of(states: Seq<State>) -> Seq<char> {
    states.map_values(|state: State| glyph_of_state(state))
}

/// A row of `length` cells that all have the state `state`.
pub open spec fn uniform_row(length: nat, state: State) -> Seq<State> {
    Seq::new(length, |column: int| state)
}

/// What reading `glyphs` one by one gives: the states that they stand for,
/// or the first character among them that is no cell glyph.
pub open spec fn parse_glyphs(glyphs: Seq<char>) -> Result<Seq<State>, ParseCellStateFromCharError>
    decreases glyphs.len(),
{
    if glyphs.len() == 0 {
        Ok(Seq::empty())
    } else {
        match parse_glyphs(glyphs.drop_last()) {
            Err(error) => Err(error),
            Ok(states) => match parse_state(glyphs.last()) {
                Err(error) => Err(error),
                Ok(state) => Ok(states.push(state)),
            },
        }
    }
}

/// What reading a line of text gives: the white space around it is dropped
/// and the rest is read glyph by glyph.
pub open spec fn parse_row(text: Seq<char>) -> Result<Seq<State>, ParseCellStateFromCharError> {
    parse_glyphs(trim(text))
}

impl View for Row {
    type V = Seq<State>;

    closed spec fn view(&self) -> Seq<State> {
        states_of(self.cells@)
    }
}

impl Clone for Row {
    fn clone(&self) -> (row: Self)
        ensures
            row@ == self@,
    {
        let row = Row { cells: self.cells.clone() };
        assert(row@ =~= self@);
        row
    }
}

impl FromStr for Row {
    type Err = ParseCellStateFromCharError;

    /// Reads a line of text as a row, as `Row::parse` does.
    fn from_str(text: &str) -> (result: Result<Self, Self::Err>)
        ensures
            match result {
                Ok(row) => parse_row(text@) == Ok::<Seq<State>, ParseCellStateFromCharError>(row@),
                Err(error) => parse_row(text@) == Err::<Seq<State>, ParseCellStateFromCharError>(
                    error,
                ),
            },
    {
        Row::parse(text)
    }
}

impl Row {
    /// The length of a row is a `usize`.
    pub proof fn lemma_len_is_usize(&self)
        ensures
            self@.len() <= usize::MAX,
    {
        assert(self@.len() == self.cells.len());
    }

    /// The row of `cells`.
    pub fn new(cells: Vec<Cell>) -> (row: Self)
        ensures
            row@ == states_of(cells@),
    {
        Self { cells }
    }

    /// The row of `cells`.
    pub fn with(cells: Vec<Cell>) -> (row: Self)
        ensures
            row@ == states_of(cells@),
    {
        Self::new(cells)
    }

    /// A row of `length` dead cells.
    pub fn of_dead_cells(length: usize) -> (row: Self)
        ensures
            row@ == uniform_row(length as nat, State::Dead),
    {
        let row = Self { cells: vec![Cell::dead(); length] };
        assert(row@ =~= uniform_row(length as nat, State::Dead));
        row
    }

    /// A row of `length` live cells.
    pub fn of_live_cells(length: usize) -> (row: Self)
        ensures
            row@ == uniform_row(length as nat, State::Live),
    {
        let row = Self { cells: vec![Cell::live(); length] };
        assert(row@ =~= uniform_row(length as nat, State::Live));
        row
    }

    /// The number of cells of this row.
    pub fn len(&self) -> (length: usize)
        ensures
            length == self@.len(),
    {
        self.cells.len()
    }

    /// Whether this row has no cell.
    pub fn is_empty(&self) -> (empty: bool)
        ensures
            empty == (self@.len() == 0),
    {
        self.cells.len() == 0
    }

    /// The cell at `pos`, which must be a position of this row.
    pub fn get_cell(&self, pos: usize) -> (cell: &Cell)
        requires
            pos < self@.len(),
        ensures
            cell@ == self@[pos as int],
    {
        &self.cells[pos]
    }

    /// Whether this row has a cell at `pos`.
    pub fn position_is_valid(&self, pos: usize) -> (valid: bool)
        ensures
            valid == (pos < self@.len()),
    {
        pos < self.cells.len()
    }

    /// The text form of this row.
    pub fn to_string(&self) -> (text: String)
        ensures
            text@ == glyphs_of(self@),
    {
        let mut output = String::new();
        self.write_to(&mut output);
        output
    }

    /// Appends the text form of this row to `output`.
    pub fn write_to(&self, output: &mut String)
        ensures
            final(output)@ == old(output)@ + glyphs_of(self@),
    {
        let mut column: usize = 0;
        while column < self.cells.len()
            invariant
                column <= self.cells.len(),
                output@ == old(output)@ + glyphs_of(self@.take(column as int)),
            decreases self.cells.len() - column,
        {
            proof {
                reveal_strlit("⬜");
                reveal_strlit("⬛");
            }
            let glyph = if self.cells[column].is_live() {
                "⬜"
            } else {
                "⬛"
            };
            assert(glyph@ =~= seq![glyph_of_state(self@[column as int])]);
            output.append(glyph);
            assert(self@.take(column + 1) =~= self@.take(column as int).push(self@[column as int]));
            assert(output@ =~= old(output)@ + glyphs_of(self@.take(column + 1)));
            column += 1;
        }
        assert(self@.take(column as int) =~= self@);
    }

    /// Reads the glyphs `chars[from..to]` as a row.
    pub fn from_glyphs(chars: &Vec<char>, from: usize, to: usize) -> (result: Result<
        Self,
        ParseCellStateFromCharError,
    >)
        requires
            from <= to <= chars.len(),
        ensures
            match result {
                Ok(row) => parse_glyphs(chars@.subrange(from as int, to as int)) == Ok::<
                    Seq<State>,
                    ParseCellStateFromCharError,
                >(row@),
                Err(error) => parse_glyphs(chars@.subrange(from as int, to as int)) == Err::<
                    Seq<State>,
                    ParseCellStateFromCharError,
                >(error),
            },
    {
        let ghost glyphs = chars@.subrange(from as int, to as int);
        let mut cells: Vec<Cell> = Vec::new();
        let mut index: usize = from;
        assert(glyphs.take(0) =~= Seq::<char>::empty());
        assert(states_of(cells@) =~= Seq::<State>::empty());
        while index < to
            invariant
                from <= index <= to <= chars.len(),
                glyphs == chars@.subrange(from as int, to as int),
                parse_glyphs(glyphs.take(index - from)) == Ok::<
                    Seq<State>,
                    ParseCellStateFromCharError,
                >(states_of(cells@)),
            decreases to - index,
        {
            let ghost read = glyphs.take(index - from);
            let ghost next = glyphs.take(index + 1 - from);
            proof {
                assert(next.drop_last() =~= read);
                assert(next.last() == chars@[index as int]);
            }
            match Cell::try_from(chars[index]) {
                Ok(cell) => {
                    let ghost before = cells@;
                    proof {
                        lemma_cell_of_view(state_of_glyph(chars@[index as int]), cell);
                        assert(parse_state(next.last()) == Ok::<State, ParseCellStateFromCharError>(
                            cell@,
                        ));
                    }
                    cells.push(cell);
                    assert(states_of(cells@) =~= states_of(before).push(cell@));
                },
                Err(error) => {
                    proof {
                        assert(parse_state(next.last()) == Err::<State, ParseCellStateFromCharError>(
                            error,
                        ));
                        lemma_parse_glyphs_error_stays(glyphs, index + 1 - from);
                    }
                    return Err(error);
                },
            }
            index += 1;
        }
        assert(glyphs.take(to - from) =~= glyphs);
        Ok(Row::new(cells))
    }

    /// Reads the line `chars[from..to]` as a row.
    pub fn from_line(chars: &Vec<char>, from: usize, to: usize) -> (result: Result<
        Self,
        ParseCellStateFromCharError,
    >)
        requires
            from <= to <= chars.len(),
        ensures
            match result {
                Ok(row) => parse_row(chars@.subrange(from as int, to as int)) == Ok::<
                    Seq<State>,
                    ParseCellStateFromCharError,
                >(row@),
                Err(error) => parse_row(chars@.subrange(from as int, to as int)) == Err::<
                    Seq<State>,
                    ParseCellStateFromCharError,
                >(error),
            },
    {
        let (first, end) = trim_bounds(chars, from, to);
        Row::from_glyphs(chars, first, end)
    }

    /// Reads a line of text as a row.
    pub fn parse(text: &str) -> (result: Result<Self, ParseCellStateFromCharError>)
        ensures
            match result {
                Ok(row) => parse_row(text@) == Ok::<Seq<State>, ParseCellStateFromCharError>(row@),
                Err(error) => parse_row(text@) == Err::<Seq<State>, ParseCellStateFromCharError>(
                    error,
                ),
            },
    {
        let chars = chars_of(text);
        assert(chars@.subrange(0, chars.len() as int) =~= chars@);
        Row::from_line(&chars, 0, chars.len())
    }
}

/// Once a prefix of the glyphs has failed to read, the whole fails with the
/// same character.
pub proof fn lemma_parse_glyphs_error_stays(glyphs: Seq<char>, k: int)
    requires
        0 <= k <= glyphs.len(),
        parse_glyphs(glyphs.take(k)) is Err,
    ensures
        parse_glyphs(glyphs) == parse_glyphs(glyphs.take(k)),
    decreases glyphs.len() - k,
{
    if k == glyphs.len() {
        assert(glyphs.take(k) =~= glyphs);
    } else {
        assert(glyphs.drop_last().take(k) =~= glyphs.take(k));
        lemma_parse_glyphs_error_stays(glyphs.drop_last(), k);
    }
}

} // verus!
