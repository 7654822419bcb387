//! Reading and writing a grid undo each other.
use crate::cell::{
    DEAD, LIVE, ParseCellStateFromCharError, State, glyph_of_state, is_glyph, parse_state,
};
use crate::grid::{column_count, has_no_cell, is_rectangular, row_count};
use crate::parse::{ParseGridError, lemma_split_lines_len, parse_rows, parsed};
use crate::render::{rendered, rendered_rows};
use crate::row::{glyphs_of, parse_glyphs, parse_row};
use crate::text::{
    is_whitespace, lemma_trim_end_keeps, lemma_trim_start_drops, split_lines, trim, trim_end,
    trim_start,
};
use vstd::prelude::*;

verus! {

/// The text form of each row of `cells`.
pub open spec fn lines_of(cells: Seq<Seq<State>>) -> Seq<Seq<char>> {
    cells.map_values(|row: Seq<State>| glyphs_of(row))
}

/// A cell glyph is neither white space nor a line feed, and reads as the
/// state that it is the glyph of.
pub proof fn lemma_glyph(state: State)
    ensures
        !is_whitespace(glyph_of_state(state)),
        glyph_of_state(state) != '\n',
        parse_state(glyph_of_state(state)) == Ok::<State, ParseCellStateFromCharError>(state),
{
    assert(LIVE as u32 == 0x2B1C);
    assert(DEAD as u32 == 0x2B1B);
}

/// The text form of a row reads as that row.
pub proof fn lemma_parse_glyphs_of(row: Seq<State>)
    ensures
        parse_glyphs(glyphs_of(row)) == Ok::<Seq<State>, ParseCellStateFromCharError>(row),
    decreases row.len(),
{
    if row.len() == 0 {
        assert(row =~= Seq::<State>::empty());
    } else {
        lemma_parse_glyphs_of(row.drop_last());
        lemma_glyph(row.last());
        assert(glyphs_of(row).drop_last() =~= glyphs_of(row.drop_last()));
        assert(row.drop_last().push(row.last()) =~= row);
    }
}

/// The text form of a row has no white space to trim, so as a line it reads
/// as that row.
pub proof fn lemma_parse_row_of_glyphs(row: Seq<State>)
    ensures
        trim(glyphs_of(row)) == glyphs_of(row),
        parse_row(glyphs_of(row)) == Ok::<Seq<State>, ParseCellStateFromCharError>(row),
{
    let glyphs = glyphs_of(row);
    if glyphs.len() > 0 {
        lemma_glyph(row[0]);
        lemma_glyph(row.last());
    }
    lemma_trim_start_drops(glyphs, 0);
    assert(glyphs.subrange(0, glyphs.len() as int) =~= glyphs);
    lemma_trim_end_keeps(glyphs, glyphs.len() as int);
    assert(glyphs.take(glyphs.len() as int) =~= glyphs);
    lemma_parse_glyphs_of(row);
}

/// The text forms of the rows of `cells` read as `cells`.
pub proof fn lemma_parse_rows_of_lines(cells: Seq<Seq<State>>)
    ensures
        parse_rows(lines_of(cells)) == Ok::<Seq<Seq<State>>, ParseCellStateFromCharError>(cells),
    decreases cells.len(),
{
    if cells.len() == 0 {
        assert(cells =~= Seq::<Seq<State>>::empty());
    } else {
        lemma_parse_rows_of_lines(cells.drop_last());
        lemma_parse_row_of_glyphs(cells.last());
        assert(lines_of(cells).drop_last() =~= lines_of(cells.drop_last()));
        assert(cells.drop_last().push(cells.last()) =~= cells);
    }
}

/// Text without a line feed, added to a text, lengthens its last line.
pub proof fn lemma_split_lines_append(text: Seq<char>, more: Seq<char>)
    requires
        forall|i: int| 0 <= i < more.len() ==> more[i] != '\n',
    ensures
        split_lines(text + more) == split_lines(text).drop_last().push(
            split_lines(text).last() + more,
        ),
    decreases more.len(),
{
    lemma_split_lines_len(text);
    let lines = split_lines(text);
    if more.len() == 0 {
        assert(text + more =~= text);
        assert(lines.last() + more =~= lines.last());
        assert(lines.drop_last().push(lines.last()) =~= lines);
    } else {
        let shorter = more.drop_last();
        lemma_split_lines_append(text, shorter);
        assert((text + more).drop_last() =~= text + shorter);
        assert((text + more).last() == more.last());
        let before = split_lines(text + shorter);
        assert(before.drop_last() =~= lines.drop_last());
        assert(before.last().push(more.last()) =~= lines.last() + more);
    }
}

/// A line feed, added to a text, ends its last line and starts an empty one.
pub proof fn lemma_split_lines_line_feed(text: Seq<char>)
    ensures
        split_lines(text + seq!['\n']) == split_lines(text).push(Seq::<char>::empty()),
{
    assert((text + seq!['\n']).drop_last() =~= text);
}

/// The lines of the text form of `cells` are the text forms of its rows,
/// and an empty line after the last line feed.
pub proof fn lemma_split_lines_of_rendered_rows(cells: Seq<Seq<State>>)
    ensures
        split_lines(rendered_rows(cells)) == lines_of(cells).push(Seq::<char>::empty()),
        cells.len() > 0 ==> split_lines(
            rendered_rows(cells.drop_last()) + glyphs_of(cells.last()),
        ) == lines_of(cells),
    decreases cells.len(),
{
    if cells.len() == 0 {
        assert(lines_of(cells) =~= Seq::<Seq<char>>::empty());
        assert(split_lines(rendered_rows(cells)) =~= lines_of(cells).push(Seq::<char>::empty()));
    } else {
        let above = cells.drop_last();
        let glyphs = glyphs_of(cells.last());
        lemma_split_lines_of_rendered_rows(above);
        assert forall|i: int| 0 <= i < glyphs.len() implies glyphs[i] != '\n' by {
            lemma_glyph(cells.last()[i]);
        }
        lemma_split_lines_append(rendered_rows(above), glyphs);
        let lines_above = lines_of(above).push(Seq::<char>::empty());
        assert(lines_above.drop_last() =~= lines_of(above));
        assert(Seq::<char>::empty() + glyphs =~= glyphs);
        assert(lines_of(above).push(glyphs) =~= lines_of(cells));
        lemma_split_lines_line_feed(rendered_rows(above) + glyphs);
    }
}

/// The text form of a grid with cells, without the white space around it,
/// is that text without its last line feed.
pub proof fn lemma_trim_rendered_rows(cells: Seq<Seq<State>>)
    requires
        is_rectangular(cells),
        !has_no_cell(cells),
    ensures
        trim(rendered_rows(cells)) == rendered_rows(cells.drop_last()) + glyphs_of(cells.last()),
        trim(rendered_rows(cells)).len() > 0,
{
    let text = rendered_rows(cells);
    let body = rendered_rows(cells.drop_last()) + glyphs_of(cells.last());
    assert(cells.last().len() == cells[0].len());
    assert(text =~= body + seq!['\n']);
    lemma_rendered_rows_first(cells);
    lemma_glyph(cells[0][0]);
    lemma_trim_start_drops(text, 0);
    assert(text.subrange(0, text.len() as int) =~= text);
    lemma_glyph(cells.last().last());
    assert(body.last() == glyphs_of(cells.last()).last());
    assert(text[text.len() - 2] == body.last());
    assert(is_whitespace('\n')) by {
        assert('\n' as u32 == 0x0A);
    }
    lemma_trim_end_keeps(text, text.len() - 1);
    assert(text.take(text.len() - 1) =~= body);
}

/// The text form of a grid with cells starts with the glyph of its first cell.
pub proof fn lemma_rendered_rows_first(cells: Seq<Seq<State>>)
    requires
        cells.len() > 0,
        cells[0].len() > 0,
    ensures
        rendered_rows(cells).len() > 0,
        rendered_rows(cells)[0] == glyph_of_state(cells[0][0]),
    decreases cells.len(),
{
    if cells.len() == 1 {
        assert(cells.drop_last() =~= Seq::<Seq<State>>::empty());
        assert(rendered_rows(cells) =~= glyphs_of(cells[0]) + seq!['\n']);
    } else {
        lemma_rendered_rows_first(cells.drop_last());
    }
}

/// Writing a grid and reading the text gives the grid back, for every grid
/// that has no row or has columns.
pub proof fn lemma_render_then_parse(cells: Seq<Seq<State>>)
    requires
        is_rectangular(cells),
        row_count(cells) == 0 || column_count(cells) > 0,
    ensures
        parsed(rendered(cells)) == Ok::<Seq<Seq<State>>, ParseGridError>(cells),
{
    if cells.len() == 0 {
        assert(cells =~= Seq::<Seq<State>>::empty());
    } else {
        lemma_trim_rendered_rows(cells);
        lemma_split_lines_of_rendered_rows(cells);
        lemma_parse_rows_of_lines(cells);
    }
}

/// The lines `lines`, each without the white space around it and followed
/// by a line feed.
pub open spec fn trimmed_lines(lines: Seq<Seq<char>>) -> Seq<char>
    decreases lines.len(),
{
    if lines.len() == 0 {
        Seq::empty()
    } else {
        trimmed_lines(lines.drop_last()) + trim(lines.last()) + seq!['\n']
    }
}

/// The canonical form of a pattern text: the text without the white space
/// around it, each of its lines without the white space around it and
/// followed by a line feed; and the empty text where nothing but white
/// space was there.
pub open spec fn canonical(text: Seq<char>) -> Seq<char> {
    let block = trim(text);
    if block.len() == 0 {
        Seq::empty()
    } else {
        trimmed_lines(split_lines(block))
    }
}

/// Glyphs that read as a row are the text form of that row.
pub proof fn lemma_glyphs_of_parsed(glyphs: Seq<char>, row: Seq<State>)
    requires
        parse_glyphs(glyphs) == Ok::<Seq<State>, ParseCellStateFromCharError>(row),
    ensures
        glyphs_of(row) == glyphs,
    decreases glyphs.len(),
{
    if glyphs.len() == 0 {
        assert(glyphs_of(row) =~= glyphs);
    } else {
        let states = parse_glyphs(glyphs.drop_last())->Ok_0;
        lemma_glyphs_of_parsed(glyphs.drop_last(), states);
        assert(is_glyph(glyphs.last()));
        assert(row.drop_last() =~= states);
        assert(glyphs_of(row) =~= glyphs_of(states).push(glyphs.last()));
        assert(glyphs.drop_last().push(glyphs.last()) =~= glyphs);
    }
}

/// Lines that read as the rows `cells` are, each without the white space
/// around it, the text forms of these rows.
pub proof fn lemma_rendered_rows_of_parsed(lines: Seq<Seq<char>>, cells: Seq<Seq<State>>)
    requires
        parse_rows(lines) == Ok::<Seq<Seq<State>>, ParseCellStateFromCharError>(cells),
    ensures
        cells.len() == lines.len(),
        forall|i: int| 0 <= i < lines.len() ==> glyphs_of(#[trigger] cells[i]) == trim(lines[i]),
        rendered_rows(cells) == trimmed_lines(lines),
    decreases lines.len(),
{
    if lines.len() == 0 {
    } else {
        let above = parse_rows(lines.drop_last())->Ok_0;
        let row = parse_row(lines.last())->Ok_0;
        lemma_rendered_rows_of_parsed(lines.drop_last(), above);
        lemma_glyphs_of_parsed(trim(lines.last()), row);
        assert(cells == above.push(row));
        assert(cells.drop_last() =~= above);
        assert forall|i: int| 0 <= i < lines.len() implies glyphs_of(#[trigger] cells[i]) == trim(
            lines[i],
        ) by {
            if i < lines.len() - 1 {
                assert(cells[i] == above[i]);
                assert(lines[i] == lines.drop_last()[i]);
            }
        }
    }
}

/// A text that does not start with a line feed has a first line that starts
/// as the text does.
pub proof fn lemma_first_line(text: Seq<char>)
    requires
        text.len() > 0,
        text[0] != '\n',
    ensures
        split_lines(text).len() > 0,
        split_lines(text)[0].len() > 0,
        split_lines(text)[0][0] == text[0],
    decreases text.len(),
{
    let shorter = text.drop_last();
    lemma_split_lines_len(shorter);
    if text.len() == 1 {
        assert(shorter =~= Seq::<char>::empty());
    } else {
        lemma_first_line(shorter);
    }
}

/// What `trim_end` leaves is a prefix of the text, and not empty where the
/// text starts with a character that is no white space.
pub proof fn lemma_trim_end_prefix(text: Seq<char>)
    ensures
        trim_end(text).len() <= text.len(),
        trim_end(text) == text.take(trim_end(text).len() as int),
        text.len() > 0 && !is_whitespace(text[0]) ==> trim_end(text).len() > 0,
    decreases text.len(),
{
    if text.len() > 0 && is_whitespace(text.last()) {
        lemma_trim_end_prefix(text.drop_last());
        assert(text.drop_last().take(trim_end(text).len() as int) =~= text.take(
            trim_end(text).len() as int,
        ));
    } else {
        assert(text.take(text.len() as int) =~= text);
    }
}

/// What `trim_start` leaves does not start with white space.
pub proof fn lemma_trim_start_first(text: Seq<char>)
    ensures
        trim_start(text).len() > 0 ==> !is_whitespace(trim_start(text)[0]),
    decreases text.len(),
{
    if text.len() > 0 && is_whitespace(text[0]) {
        lemma_trim_start_first(text.drop_first());
    }
}

/// A text that is not empty and does not start with white space is not
/// empty without the white space around it.
pub proof fn lemma_trim_keeps_first(text: Seq<char>)
    requires
        text.len() > 0,
        !is_whitespace(text[0]),
    ensures
        trim(text).len() > 0,
{
    lemma_trim_end_prefix(text);
}

/// A grid that was read from a text is rectangular, and has columns where
/// it has rows.
pub proof fn lemma_parsed_has_columns(text: Seq<char>)
    requires
        parsed(text) is Ok,
    ensures
        is_rectangular(parsed(text)->Ok_0),
        row_count(parsed(text)->Ok_0) == 0 || column_count(parsed(text)->Ok_0) > 0,
{
    let block = trim(text);
    let cells = parsed(text)->Ok_0;
    if block.len() > 0 {
        let lines = split_lines(block);
        lemma_trim_start_first(text);
        lemma_trim_end_prefix(trim_start(text));
        assert(block[0] == trim_start(text)[0]);
        assert(is_whitespace('\n')) by {
            assert('\n' as u32 == 0x0A);
        }
        lemma_first_line(block);
        lemma_trim_keeps_first(lines[0]);
        lemma_rendered_rows_of_parsed(lines, cells);
        assert(glyphs_of(cells[0]) == trim(lines[0]));
        assert(glyphs_of(cells[0]).len() == cells[0].len());
    }
}

/// Reading a text and writing the grid gives the canonical form of the text.
pub proof fn lemma_parse_then_render(text: Seq<char>)
    requires
        parsed(text) is Ok,
    ensures
        rendered(parsed(text)->Ok_0) == canonical(text),
{
    let block = trim(text);
    let cells = parsed(text)->Ok_0;
    lemma_parsed_has_columns(text);
    if block.len() > 0 {
        let lines = split_lines(block);
        lemma_split_lines_len(block);
        lemma_rendered_rows_of_parsed(lines, cells);
    }
}

/// A grid that was read from a text, written and read again, is the same
/// grid.
pub proof fn lemma_parse_render_parse(text: Seq<char>)
    requires
        parsed(text) is Ok,
    ensures
        parsed(rendered(parsed(text)->Ok_0)) == parsed(text),
{
    lemma_parsed_has_columns(text);
    lemma_render_then_parse(parsed(text)->Ok_0);
}

} // verus!
