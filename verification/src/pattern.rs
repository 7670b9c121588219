//! The textual form of a board: one line per row, `X` for a live cell.

use crate::game::GAME_SIZE;
use crate::grid::{well_formed, Grid};
use vstd::prelude::*;

verus! {

/// The character that marks a live cell.
pub const ALIVE: char = 'X';

/// The character written for a dead cell.
pub const DEAD: char = '.';

/// The pieces of `text` between its newlines, in order. A text with `n`
/// newlines has `n + 1` pieces; the empty text has one, which is empty.
pub open spec fn split_lines(text: Seq<char>) -> Seq<Seq<char>>
    decreases text.len(),
{
    if text.len() == 0 {
        seq![Seq::empty()]
    } else {
        let before = split_lines(text.drop_last());
        if text.last() == '\n' {
            before.push(Seq::empty())
        } else {
            before.update(before.len() - 1, before.last().push(text.last()))
        }
    }
}

/// Line `x` exists, reaches column `y`, and holds the live mark there.
pub open spec fn marked(lines: Seq<Seq<char>>, x: int, y: int) -> bool {
    0 <= x < lines.len() && 0 <= y < lines[x].len() && lines[x][y] == ALIVE
}

/// The grid that a list of lines describes: cell `(x, y)` is alive exactly
/// when line `x` holds the live mark at column `y`. Missing lines and short
/// lines leave their cells dead; what lies past the board's edge is ignored.
pub open spec fn grid_of_lines(lines: Seq<Seq<char>>) -> Grid {
    Seq::new(
        GAME_SIZE as nat,
        |x: int| Seq::new(GAME_SIZE as nat, |y: int| marked(lines, x, y)),
    )
}

/// The grid that a text describes.
pub open spec fn parse(text: Seq<char>) -> Grid {
    grid_of_lines(split_lines(text))
}

/// The text of one row: a mark per cell.
pub open spec fn row_text(row: Seq<bool>) -> Seq<char> {
    Seq::new(
        row.len(),
        |y: int|
            if row[y] {
                ALIVE
            } else {
                DEAD
            },
    )
}

/// The text of the first `rows` rows, each followed by a newline.
pub open spec fn rows_text(grid: Grid, rows: int) -> Seq<char>
    decreases rows,
{
    if rows <= 0 {
        Seq::empty()
    } else {
        rows_text(grid, rows - 1) + row_text(grid[rows - 1]).push('\n')
    }
}

/// The text of a whole grid.
pub open spec fn render(grid: Grid) -> Seq<char> {
    rows_text(grid, grid.len() as int)
}

/// A text always splits into at least one line.
pub proof fn lemma_split_lines_nonempty(text: Seq<char>)
    ensures
        split_lines(text).len() >= 1,
    decreases text.len(),
{
    if text.len() > 0 {
        lemma_split_lines_nonempty(text.drop_last());
    }
}

/// Appending a character other than a newline extends the last line by it.
pub proof fn lemma_split_lines_push_char(text: Seq<char>, c: char)
    requires
        c != '\n',
    ensures
        split_lines(text.push(c)) == split_lines(text).update(
            split_lines(text).len() - 1,
            split_lines(text).last().push(c),
        ),
{
    assert(text.push(c).drop_last() =~= text);
}

/// Appending a newline opens a new, empty line.
pub proof fn lemma_split_lines_push_newline(text: Seq<char>)
    ensures
        split_lines(text.push('\n')) == split_lines(text).push(Seq::empty()),
{
    assert(text.push('\n').drop_last() =~= text);
}

/// Appending characters that hold no newline extends the last line by them.
pub proof fn lemma_split_lines_extend(text: Seq<char>, more: Seq<char>)
    requires
        forall|i: int| 0 <= i < more.len() ==> more[i] != '\n',
    ensures
        split_lines(text + more) == split_lines(text).update(
            split_lines(text).len() - 1,
            split_lines(text).last() + more,
        ),
    decreases more.len(),
{
    lemma_split_lines_nonempty(text);
    let lines = split_lines(text);
    if more.len() == 0 {
        assert(text + more =~= text);
        assert(lines.last() + more =~= lines.last());
        assert(lines.update(lines.len() - 1, lines.last()) =~= lines);
    } else {
        let shorter = more.drop_last();
        lemma_split_lines_extend(text, shorter);
        lemma_split_lines_push_char(text + shorter, more.last());
        assert((text + shorter).push(more.last()) =~= text + more);
        assert((lines.last() + shorter).push(more.last()) =~= lines.last() + more);
        assert(lines.update(lines.len() - 1, lines.last() + shorter).update(
            lines.len() - 1,
            lines.last() + more,
        ) =~= lines.update(lines.len() - 1, lines.last() + more));
    }
}

/// The text of the first `rows` rows splits into those rows' texts, followed
/// by one empty line.
pub proof fn lemma_split_rows_text(grid: Grid, rows: int)
    requires
        0 <= rows <= grid.len(),
    ensures
        split_lines(rows_text(grid, rows)) == Seq::new(
            (rows + 1) as nat,
            |x: int|
                if x < rows {
                    row_text(grid[x])
                } else {
                    Seq::empty()
                },
        ),
    decreases rows,
{
    let expected = Seq::new(
        (rows + 1) as nat,
        |x: int|
            if x < rows {
                row_text(grid[x])
            } else {
                Seq::empty()
            },
    );
    if rows == 0 {
        assert(split_lines(rows_text(grid, rows)) =~= expected);
    } else {
        let before = rows_text(grid, rows - 1);
        let row = row_text(grid[rows - 1]);
        lemma_split_rows_text(grid, rows - 1);
        lemma_split_lines_extend(before, row);
        lemma_split_lines_push_newline(before + row);
        assert((before + row).push('\n') =~= before + row.push('\n'));
        assert(Seq::<char>::empty() + row =~= row);
        assert(split_lines(rows_text(grid, rows)) =~= expected);
    }
}

/// Reading back the text written for a board gives the same board, cell for cell.
pub proof fn lemma_parse_render(grid: Grid)
    requires
        well_formed(grid),
    ensures
        parse(render(grid)) == grid,
{
    lemma_split_rows_text(grid, GAME_SIZE as int);
    let lines = split_lines(render(grid));
    assert forall|x: int, y: int| 0 <= x < GAME_SIZE && 0 <= y < GAME_SIZE implies marked(
        lines,
        x,
        y,
    ) == grid[x][y] by {
        assert(lines[x] == row_text(grid[x]));
    }
    assert(parse(render(grid)) =~~= grid);
}

/// Reading never fails and always yields a full board; a cell whose line is
/// missing, or whose line ends before its column, is dead.
pub proof fn lemma_parse_permissive(text: Seq<char>, x: int, y: int)
    requires
        0 <= x < GAME_SIZE,
        0 <= y < GAME_SIZE,
    ensures
        well_formed(parse(text)),
        x >= split_lines(text).len() ==> !parse(text)[x][y],
        x < split_lines(text).len() && y >= split_lines(text)[x].len() ==> !parse(text)[x][y],
        parse(text)[x][y] <==> marked(split_lines(text), x, y),
{
}

/// The text of a board has one line of `GAME_SIZE` marks per row, each ended
/// by a newline.
pub proof fn lemma_rows_text_len(grid: Grid, rows: int)
    requires
        well_formed(grid),
        0 <= rows <= GAME_SIZE,
    ensures
        rows_text(grid, rows).len() == rows * (GAME_SIZE + 1),
    decreases rows,
{
    if rows > 0 {
        lemma_rows_text_len(grid, rows - 1);
    }
}

} // verus!
