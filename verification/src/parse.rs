//! Reading a grid from its text form.
use crate::cell::{ParseCellStateFromCharError, State};
use crate::grid::{Grid, is_rectangular, rows_of};
use crate::row::{Row, parse_row};
use crate::text::{chars_of, split_lines, trim, trim_bounds};
use std::str::FromStr;
use vstd::prelude::*;

verus! {

/// What is wrong with a text that is no grid.
#[derive(Debug, Clone, Copy, PartialEq, Eq, Structural)]
pub enum ParseGridErrorKind {
    /// The text holds this character, which is neither a cell glyph nor
    /// white space around a line.
    InvalidChar(char),
    /// The lines of the text are not all of one length.
    RaggedRows,
}

/// A text could not be read as a grid.
#[derive(Debug, Clone, Copy, PartialEq, Eq, Structural)]
pub struct ParseGridError {
    pub kind: ParseGridErrorKind,
}

/// What reading `lines` one by one gives: the row of each line, or the
/// first character that is no cell glyph.
pub open spec fn parse_rows(lines: Seq<Seq<char>>) -> Result<
    Seq<Seq<State>>,
    ParseCellStateFromCharError,
>
    decreases lines.len(),
{
    if lines.len() == 0 {
        Ok(Seq::empty())
    } else {
        match parse_rows(lines.drop_last()) {
            Err(error) => Err(error),
            Ok(cells) => match parse_row(lines.last()) {
                Err(error) => Err(error),
                Ok(row) => Ok(cells.push(row)),
            },
        }
    }
}

/// What reading `text` as a grid gives. The white space around the text is
/// dropped. Nothing left is the grid without rows. Else each line is read as
/// a row; the first character that is no cell glyph is an error, and so are
/// rows of different lengths.
pub open spec fn parsed(text: Seq<char>) -> Result<Seq<Seq<State>>, ParseGridError> {
    let block = trim(text);
    if block.len() == 0 {
        Ok(Seq::empty())
    } else {
        match parse_rows(split_lines(block)) {
            Err(error) => Err(
                ParseGridError { kind: ParseGridErrorKind::InvalidChar(error.invalid_char) },
            ),
            Ok(cells) => if is_rectangular(cells) {
                Ok(cells)
            } else {
                Err(ParseGridError { kind: ParseGridErrorKind::RaggedRows })
            },
        }
    }
}

/// The lines of `text` that a line feed has ended.
pub open spec fn ended_lines(text: Seq<char>) -> Seq<Seq<char>> {
    split_lines(text).drop_last()
}

/// A text has at least one line.
pub proof fn lemma_split_lines_len(text: Seq<char>)
    ensures
        split_lines(text).len() >= 1,
    decreases text.len(),
{
    if text.len() > 0 {
        lemma_split_lines_len(text.drop_last());
    }
}

/// The lines that have ended after the first `k` characters of a text are
/// the first lines of the whole text.
pub proof fn lemma_ended_lines_stay(text: Seq<char>, k: int)
    requires
        0 <= k <= text.len(),
    ensures
        ended_lines(text.take(k)).len() < split_lines(text).len(),
        ended_lines(text.take(k)) == split_lines(text).take(ended_lines(text.take(k)).len() as int),
    decreases text.len() - k,
{
    lemma_split_lines_len(text);
    lemma_split_lines_len(text.take(k));
    if k == text.len() {
        assert(text.take(k) =~= text);
        assert(ended_lines(text) =~= split_lines(text).take(ended_lines(text).len() as int));
    } else {
        let shorter = text.take(k);
        let longer = text.take(k + 1);
        assert(longer.drop_last() =~= shorter);
        lemma_ended_lines_stay(text, k + 1);
        let ended = ended_lines(longer);
        assert(ended_lines(shorter) =~= ended.take(ended_lines(shorter).len() as int));
        assert(ended_lines(shorter) =~= split_lines(text).take(
            ended_lines(shorter).len() as int,
        ));
    }
}

/// Once the first `k` lines have failed to read, all of them fail with the
/// same character.
pub proof fn lemma_parse_rows_error_stays(lines: Seq<Seq<char>>, k: int)
    requires
        0 <= k <= lines.len(),
        parse_rows(lines.take(k)) is Err,
    ensures
        parse_rows(lines) == parse_rows(lines.take(k)),
    decreases lines.len() - k,
{
    if k == lines.len() {
        assert(lines.take(k) =~= lines);
    } else {
        assert(lines.drop_last().take(k) =~= lines.take(k));
        lemma_parse_rows_error_stays(lines.drop_last(), k);
    }
}

impl FromStr for Grid {
    type Err = ParseGridError;

    /// Reads `text` as a grid, as `Grid::parse` does.
    fn from_str(text: &str) -> (result: Result<Self, Self::Err>)
        ensures
            match result {
                Ok(grid) => parsed(text@) == Ok::<Seq<Seq<State>>, ParseGridError>(grid@),
                Err(error) => parsed(text@) == Err::<Seq<Seq<State>>, ParseGridError>(error),
            },
    {
        Grid::parse(text)
    }
}

impl Grid {
    /// Reads `text` as a grid.
    pub fn parse(text: &str) -> (result: Result<Self, ParseGridError>)
        ensures
            match result {
                Ok(grid) => parsed(text@) == Ok::<Seq<Seq<State>>, ParseGridError>(grid@),
                Err(error) => parsed(text@) == Err::<Seq<Seq<State>>, ParseGridError>(error),
            },
    {
        let chars = chars_of(text);
        assert(chars@.subrange(0, chars.len() as int) =~= chars@);
        let (from, to) = trim_bounds(&chars, 0, chars.len());
        if from == to {
            return Ok(Grid::new_empty());
        }
        let ghost block = chars@.subrange(from as int, to as int);
        let ghost mut ended: Seq<Seq<char>> = Seq::empty();
        let mut cell_rows: Vec<Row> = Vec::new();
        let mut line_start: usize = from;
        let mut index: usize = from;
        proof {
            assert(block.take(0) =~= Seq::<char>::empty());
            assert(chars@.subrange(from as int, from as int) =~= Seq::<char>::empty());
            assert(split_lines(block.take(0)) =~= ended.push(
                chars@.subrange(line_start as int, index as int),
            ));
            assert(rows_of(cell_rows@) =~= Seq::<Seq<State>>::empty());
        }
        while index < to
            invariant
                from <= line_start <= index <= to <= chars.len(),
                from < to,
                block == chars@.subrange(from as int, to as int),
                block == trim(text@),
                split_lines(block.take(index - from)) == ended.push(
                    chars@.subrange(line_start as int, index as int),
                ),
                parse_rows(ended) == Ok::<Seq<Seq<State>>, ParseCellStateFromCharError>(
                    rows_of(cell_rows@),
                ),
            decreases to - index,
        {
            let ghost line = chars@.subrange(line_start as int, index as int);
            proof {
                assert(block.take(index + 1 - from).drop_last() =~= block.take(index - from));
                assert(block.take(index + 1 - from).last() == chars@[index as int]);
            }
            if chars[index] == '\n' {
                let ghost rows_before = cell_rows@;
                proof {
                    assert(ended.push(line).push(Seq::<char>::empty()).drop_last() =~= ended.push(
                        line,
                    ));
                    assert(ended.push(line).drop_last() =~= ended);
                }
                match Row::from_line(&chars, line_start, index) {
                    Ok(row) => {
                        cell_rows.push(row);
                        assert(rows_of(cell_rows@) =~= rows_of(rows_before).push(row@));
                    },
                    Err(error) => {
                        proof {
                            let failed = ended.push(line);
                            assert(split_lines(block.take(index + 1 - from)) == failed.push(
                                Seq::<char>::empty(),
                            ));
                            assert(ended_lines(block.take(index + 1 - from)) == failed);
                            lemma_ended_lines_stay(block, index + 1 - from);
                            assert(failed.drop_last() =~= ended);
                            assert(parse_rows(failed) == Err::<
                                Seq<Seq<State>>,
                                ParseCellStateFromCharError,
                            >(error));
                            lemma_parse_rows_error_stays(
                                split_lines(block),
                                ended.len() as int + 1,
                            );
                        }
                        return Err(
                            ParseGridError {
                                kind: ParseGridErrorKind::InvalidChar(error.invalid_char),
                            },
                        );
                    },
                }
                proof {
                    ended = ended.push(line);
                    assert(chars@.subrange(index + 1, index + 1) =~= Seq::<char>::empty());
                }
                line_start = index + 1;
            } else {
                proof {
                    assert(ended.push(line).drop_last() =~= ended);
                    assert(line.push(chars@[index as int]) =~= chars@.subrange(
                        line_start as int,
                        index + 1,
                    ));
                }
            }
            index += 1;
        }
        let ghost line = chars@.subrange(line_start as int, to as int);
        let ghost rows_before = cell_rows@;
        proof {
            assert(block.take(to - from) =~= block);
            assert(ended.push(line).drop_last() =~= ended);
        }
        match Row::from_line(&chars, line_start, to) {
            Ok(row) => {
                cell_rows.push(row);
                assert(rows_of(cell_rows@) =~= rows_of(rows_before).push(row@));
            },
            Err(error) => {
                return Err(
                    ParseGridError { kind: ParseGridErrorKind::InvalidChar(error.invalid_char) },
                );
            },
        }
        match Grid::try_new(cell_rows) {
            Ok(grid) => Ok(grid),
            Err(_) => Err(ParseGridError { kind: ParseGridErrorKind::RaggedRows }),
        }
    }
}

} // verus!
