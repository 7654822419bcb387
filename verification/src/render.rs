//! The text form of a grid: one line of glyphs for each row.
use crate::cell::State;
use crate::grid::{Grid, column_count, has_no_cell, is_rectangular, row_count};
use crate::row::glyphs_of;
use crate::size::Size;
use crate::traverser::{cell_count, lemma_row_major, lemma_row_major_of_position, row_major};
use vstd::prelude::*;

verus! {

/// The lines of `cells`: the glyphs of each row, each followed by a line feed.
pub open spec fn rendered_rows(cells: Seq<Seq<State>>) -> Seq<char>
    decreases cells.len(),
{
    if cells.len() == 0 {
        Seq::empty()
    } else {
        rendered_rows(cells.drop_last()) + glyphs_of(cells.last()) + seq!['\n']
    }
}

/// The text form of `cells`: its lines, and the empty text for a grid
/// without cells.
pub open spec fn rendered(cells: Seq<Seq<State>>) -> Seq<char> {
    if has_no_cell(cells) {
        Seq::empty()
    } else {
        rendered_rows(cells)
    }
}

/// The text of the first `index` cells of `cells`, read row by row.
spec fn rendered_cells(cells: Seq<Seq<State>>, index: nat) -> Seq<char> {
    if index >= row_count(cells) * column_count(cells) {
        rendered(cells)
    } else {
        let row = index as int / column_count(cells) as int;
        let column = index as int % column_count(cells) as int;
        rendered_rows(cells.take(row)) + glyphs_of(cells[row].take(column))
    }
}

/// The text form of `grid`, written cell by cell.
pub fn render_grid(grid: &Grid) -> (output: String)
    ensures
        output@ == rendered(grid@),
{
    let ghost cells = grid@;
    let mut output = String::new();
    let mut traverser = grid.iter();
    let ghost size = traverser.size();
    proof {
        use_type_invariant(grid);
        lemma_rendered_cells_start(cells);
    }
    loop
        invariant
            cells == grid@,
            is_rectangular(cells),
            size.rows == row_count(cells),
            size.columns == column_count(cells),
            traverser.size() == size,
            output@ == rendered_cells(cells, traverser.yielded()),
        ensures
            output@ == rendered(cells),
        decreases cell_count(size) - traverser.yielded(),
    {
        let ghost index = traverser.yielded();
        let ghost before = output@;
        match traverser.next() {
            None => {
                break ;
            },
            Some(cell_coordinates) => {
                proof {
                    lemma_row_major(size, index);
                    reveal_strlit("⬜");
                    reveal_strlit("⬛");
                    reveal_strlit("\n");
                }
                let glyph = if grid.get_cell(&cell_coordinates).is_live() {
                    "⬜"
                } else {
                    "⬛"
                };
                output.append(glyph);
                let last = grid.is_last_column(&cell_coordinates);
                if last {
                    output.append("\n");
                }
                proof {
                    lemma_rendered_cells_step(cells, index);
                    let state = cells[cell_coordinates.row as int][cell_coordinates.column as int];
                    assert(glyph@ =~= glyphs_of(seq![state]));
                    if last {
                        assert(output@ =~= before + glyphs_of(seq![state]) + seq!['\n']);
                    }
                }
            },
        }
    }
    output
}

impl Grid {
    /// The text form of this grid, written row by row.
    pub fn to_string(&self) -> (output: String)
        ensures
            output@ == rendered(self@),
    {
        let mut output = String::new();
        if self.is_empty() {
            return output;
        }
        let rows = self.rows();
        let mut row: usize = 0;
        while row < rows
            invariant
                row <= rows,
                rows == row_count(self@),
                output@ == rendered_rows(self@.take(row as int)),
            decreases rows - row,
        {
            let ghost before = output@;
            let cell_row = self.row(row);
            cell_row.write_to(&mut output);
            proof {
                reveal_strlit("\n");
            }
            output.append("\n");
            proof {
                let lines = self@.take(row + 1);
                assert(lines.drop_last() =~= self@.take(row as int));
                assert(lines.last() == cell_row@);
                assert(output@ =~= before + glyphs_of(cell_row@) + seq!['\n']);
            }
            row += 1;
        }
        assert(self@.take(rows as int) =~= self@);
        output
    }
}

/// Before the first cell nothing is written.
proof fn lemma_rendered_cells_start(cells: Seq<Seq<State>>)
    ensures
        rendered_cells(cells, 0) == Seq::<char>::empty(),
{
    let rows = row_count(cells) as int;
    let columns = column_count(cells) as int;
    if has_no_cell(cells) {
        assert(rows * columns == 0) by (nonlinear_arith)
            requires
                rows == 0 || columns == 0,
        ;
    } else {
        assert(rows * columns > 0) by (nonlinear_arith)
            requires
                rows > 0,
                columns > 0,
        ;
        assert(0int / columns == 0 && 0int % columns == 0) by (nonlinear_arith)
            requires
                columns > 0,
        ;
        assert(cells.take(0) =~= Seq::<Seq<State>>::empty());
        assert(glyphs_of(cells[0].take(0)) =~= Seq::<char>::empty());
        assert(rendered_cells(cells, 0) =~= Seq::<char>::empty());
    }
}

/// Writing the cell with the number `index` brings the text of the first
/// `index` cells to that of the first `index + 1`: its glyph is added, and
/// after the last cell of a row a line feed.
proof fn lemma_rendered_cells_step(cells: Seq<Seq<State>>, index: nat)
    requires
        is_rectangular(cells),
        row_count(cells) <= usize::MAX,
        column_count(cells) <= usize::MAX,
        index < row_count(cells) * column_count(cells),
    ensures
        ({
            let size = Size { rows: row_count(cells) as usize, columns: column_count(cells) as usize };
            let position = row_major(size, index);
            let glyph = glyphs_of(seq![cells[position.row as int][position.column as int]]);
            rendered_cells(cells, index + 1) == rendered_cells(cells, index) + glyph + if position.column
                == size.columns - 1 {
                seq!['\n']
            } else {
                Seq::<char>::empty()
            }
        }),
{
    let size = Size { rows: row_count(cells) as usize, columns: column_count(cells) as usize };
    let position = row_major(size, index);
    let row = position.row as int;
    let column = position.column as int;
    let rows = size.rows as int;
    let columns = size.columns as int;
    lemma_row_major(size, index);
    let state = cells[row][column];
    let glyph = glyphs_of(seq![state]);
    assert(cells[row].len() == columns);
    assert(glyphs_of(cells[row].take(column + 1)) =~= glyphs_of(cells[row].take(column)) + glyph);
    if column == columns - 1 {
        assert((row + 1) * columns == index + 1) by (nonlinear_arith)
            requires
                index == row * columns + column,
                column == columns - 1,
        ;
        assert(cells[row].take(column + 1) =~= cells[row]);
        assert(cells.take(row + 1).drop_last() =~= cells.take(row));
        assert(cells.take(row + 1).last() == cells[row]);
        if row + 1 == rows {
            assert(cells.take(rows) =~= cells);
            assert(rows * columns == index + 1);
        } else {
            lemma_row_major_of_position(size, (row + 1) as usize, 0);
            lemma_row_major(size, index + 1);
            assert(cells[row + 1].take(0) =~= Seq::<State>::empty());
            assert(glyphs_of(cells[row + 1].take(0)) =~= Seq::<char>::empty());
        }
        assert(rendered_cells(cells, index + 1) =~= rendered_cells(cells, index) + glyph
            + seq!['\n']);
    } else {
        lemma_row_major_of_position(size, row as usize, (column + 1) as usize);
        assert(row * columns + (column + 1) == index + 1);
        lemma_row_major(size, index + 1);
        assert(rendered_cells(cells, index + 1) =~= rendered_cells(cells, index) + glyph
            + Seq::<char>::empty());
    }
}

} // verus!
