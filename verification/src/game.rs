//! The board engine: the cell grid, the mutations that change it, neighbour
//! counting on the torus and the rule that yields the next generation.

use crate::grid::{
    all_in_bounds, apply_all, apply_one, changes, dead_grid, evolve, in_bounds,
    lemma_next_generation_evolves, neighbour, neighbour_count, next_generation, on_board,
    row_changes, well_formed, wrap, Grid,
};
use crate::pattern::{
    lemma_parse_render, lemma_split_lines_nonempty, marked, parse, render, row_text, rows_text,
    split_lines, ALIVE,
};
use vstd::prelude::*;
use vstd::string::StringExecFns;

verus! {

/// Side length of the square board.
pub const GAME_SIZE: usize = 64;

/// A square board of cells, alive or dead, whose edges wrap around.
#[derive(Clone, Debug, PartialEq, Eq)]
pub struct Game {
    board: [[bool; GAME_SIZE]; GAME_SIZE],
}

/// One requested change to one cell, named by row and column.
#[derive(Clone, Copy, Debug, PartialEq, Eq)]
pub enum Mutation {
    On(usize, usize),
    Off(usize, usize),
    Toggle(usize, usize),
}

impl View for Game {
    type V = Grid;

    closed spec fn view(&self) -> Grid {
        Seq::new(
            GAME_SIZE as nat,
            |x: int| Seq::new(GAME_SIZE as nat, |y: int| self.board[x][y]),
        )
    }
}

impl Game {
    /// Every board is a full square grid.
    pub proof fn lemma_well_formed(&self)
        ensures
            well_formed(self@),
    {
    }

    /// A board with every cell dead.
    pub fn empty() -> (game: Game)
        ensures
            game@ == dead_grid(),
    {
        let game = Game { board: [[false; GAME_SIZE]; GAME_SIZE] };
        assert(game@ =~~= dead_grid());
        game
    }

    /// Reads a board from text, one line per row: a cell is alive exactly when
    /// its line holds `X` at its column. Short or missing lines leave cells
    /// dead, and what lies past the board's edge is ignored.
    pub fn new(rows: &String) -> (game: Game)
        ensures
            game@ == parse(rows@),
    {
        let mut game = Game::empty();
        let mut x: usize = 0;
        let mut y: usize = 0;
        let ghost text = rows@;
        proof {
            lemma_split_lines_nonempty(text.take(0));
            assert(game@ =~~= parse(text.take(0)));
        }
        for c in it: rows.as_str().chars()
            invariant
                it.seq() == text,
                x <= GAME_SIZE,
                y <= GAME_SIZE,
                split_lines(text.take(it.index())).len() >= 1,
                x == vstd::math::min(
                    split_lines(text.take(it.index())).len() - 1,
                    GAME_SIZE as int,
                ),
                y == vstd::math::min(
                    split_lines(text.take(it.index())).last().len() as int,
                    GAME_SIZE as int,
                ),
                game@ == parse(text.take(it.index())),
        {
            proof {
                let upto = text.take(it.index() + 1);
                assert(upto.drop_last() =~= text.take(it.index()));
                assert(upto.last() == c);
                lemma_split_lines_nonempty(upto);
            }
            let ghost before = game@;
            if c == '\n' {
                if x < GAME_SIZE {
                    x += 1;
                }
                y = 0;
                assert(game@ =~~= parse(text.take(it.index() + 1)));
            } else {
                if x < GAME_SIZE && y < GAME_SIZE && c == ALIVE {
                    game.board[x][y] = true;
                }
                if y < GAME_SIZE {
                    y += 1;
                }
                proof {
                    let lines = split_lines(text.take(it.index()));
                    let after = split_lines(text.take(it.index() + 1));
                    let row = lines.len() - 1;
                    assert(after == lines.update(row, lines.last().push(c)));
                    assert forall|a: int, b: int| on_board(a) && on_board(b) implies game@[a][b]
                        == marked(after, a, b) by {
                        assert(before[a][b] == marked(lines, a, b));
                        if a == row {
                            assert(after[a] == lines[a].push(c));
                        } else if a < row {
                            assert(after[a] == lines[a]);
                        }
                    }
                    assert(game@ =~~= parse(text.take(it.index() + 1)));
                }
            }
        }
        assert(text.take(text.len() as int) =~= text);
        game
    }

    /// Writes the board as text: a line per row, `X` for a live cell and `.`
    /// for a dead one, a newline after every row. Reading the text gives the
    /// board back.
    pub fn to_text(&self) -> (text: String)
        ensures
            text@ == render(self@),
            parse(text@) == self@,
    {
        let mut text = String::new();
        let mut x: usize = 0;
        proof {
            lemma_parse_render(self@);
            reveal_strlit("X");
            reveal_strlit(".");
            reveal_strlit("\n");
        }
        while x < GAME_SIZE
            invariant
                x <= GAME_SIZE,
                "X"@ == seq!['X'],
                "."@ == seq!['.'],
                "\n"@ == seq!['\n'],
                text@ == rows_text(self@, x as int),
            decreases GAME_SIZE - x,
        {
            let mut y: usize = 0;
            let ghost row = row_text(self@[x as int]);
            while y < GAME_SIZE
                invariant
                    x < GAME_SIZE,
                    y <= GAME_SIZE,
                    "X"@ == seq!['X'],
                    "."@ == seq!['.'],
                    row == row_text(self@[x as int]),
                    text@ == rows_text(self@, x as int) + row.take(y as int),
                decreases GAME_SIZE - y,
            {
                if self.board[x][y] {
                    text.append("X");
                } else {
                    text.append(".");
                }
                assert(text@ =~= rows_text(self@, x as int) + row.take(y + 1));
                y += 1;
            }
            text.append("\n");
            assert(text@ =~= rows_text(self@, x + 1));
            x += 1;
        }
        text
    }

    /// Whether the cell in row `x`, column `y` is alive.
    pub fn is_alive(&self, x: usize, y: usize) -> (alive: bool)
        requires
            x < GAME_SIZE,
            y < GAME_SIZE,
        ensures
            alive == self@[x as int][y as int],
    {
        self.board[x][y]
    }

    fn neighbour(&self, x: usize, y: usize, dx: i8, dy: i8) -> (alive: usize)
        requires
            x < GAME_SIZE,
            y < GAME_SIZE,
            -1 <= dx <= 1,
            -1 <= dy <= 1,
        ensures
            alive == neighbour(self@, x as int, y as int, dx as int, dy as int),
    {
        let n_x = add_mod_game_size(x, dx);
        let n_y = add_mod_game_size(y, dy);
        if self.board[n_x][n_y] {
            1
        } else {
            0
        }
    }

    /// Counts the live cells among the eight around `(x, y)`, across the edges.
    pub fn count_neighbours(&self, x: usize, y: usize) -> (count: usize)
        requires
            x < GAME_SIZE,
            y < GAME_SIZE,
        ensures
            count == neighbour_count(self@, x as int, y as int),
            count <= 8,
    {
        self.neighbour(x, y, 1, -1) + self.neighbour(x, y, 1, 0) + self.neighbour(x, y, 1, 1)
            + self.neighbour(x, y, 0, -1) + self.neighbour(x, y, 0, 1)
            + self.neighbour(x, y, -1, -1) + self.neighbour(x, y, -1, 0)
            + self.neighbour(x, y, -1, 1)
    }

    /// Applies one mutation.
    pub fn mutate_single(&mut self, mutation: Mutation)
        requires
            in_bounds(mutation),
        ensures
            final(self)@ == apply_one(old(self)@, mutation),
        no_unwind
    {
        match mutation {
            Mutation::On(x, y) => {
                self.board[x][y] = true;
            },
            Mutation::Off(x, y) => {
                self.board[x][y] = false;
            },
            Mutation::Toggle(x, y) => {
                self.board[x][y] = !self.board[x][y];
            },
        }
        assert(self@ =~~= apply_one(old(self)@, mutation));
    }

    /// Applies the mutations in order, each to the board that the one before left.
    pub fn mutate(&mut self, mutations: Vec<Mutation>)
        requires
            all_in_bounds(mutations@),
        ensures
            final(self)@ == apply_all(old(self)@, mutations@),
        no_unwind
    {
        let mut i: usize = 0;
        while i < mutations.len()
            invariant
                i <= mutations.len(),
                all_in_bounds(mutations@),
                self@ == apply_all(old(self)@, mutations@.take(i as int)),
            decreases mutations.len() - i,
        {
            assert(mutations@.take(i + 1).drop_last() =~= mutations@.take(i as int));
            self.mutate_single(mutations[i]);
            i += 1;
        }
        assert(mutations@.take(i as int) =~= mutations@);
    }
}

/// Moves a coordinate by `modifier` steps on the torus.
pub fn add_mod_game_size(val: usize, modifier: i8) -> (moved: usize)
    requires
        val < GAME_SIZE,
        -GAME_SIZE <= modifier <= GAME_SIZE,
    ensures
        moved == wrap(val as int, modifier as int),
        moved < GAME_SIZE,
        moved == (val + modifier) % (GAME_SIZE as int),
{
    let new_val: i16 = val as i16 + modifier as i16;
    let game_size_i: i16 = GAME_SIZE as i16;
    if new_val < 0 {
        (game_size_i + new_val) as usize
    } else if new_val >= game_size_i {
        (new_val - game_size_i) as usize
    } else {
        new_val as usize
    }
}

/// Evaluates the rule on every cell of the current generation, row by row, and
/// collects the changes that lead to the next one: applied to the board, they
/// give every cell the state that the rule gives it. The board itself is not
/// touched.
pub fn game_of_life(game: &Game) -> (mutations: Vec<Mutation>)
    ensures
        mutations@ == next_generation(game@),
        all_in_bounds(mutations@),
        apply_all(game@, mutations@) == evolve(game@),
{
    proof {
        lemma_next_generation_evolves(game@);
    }
    let mut mutations: Vec<Mutation> = Vec::new();
    let mut x: usize = 0;
    while x < GAME_SIZE
        invariant
            x <= GAME_SIZE,
            mutations@ == changes(game@, evolve(game@), x as int),
            all_in_bounds(mutations@),
        decreases GAME_SIZE - x,
    {
        let mut y: usize = 0;
        while y < GAME_SIZE
            invariant
                x < GAME_SIZE,
                y <= GAME_SIZE,
                mutations@ == changes(game@, evolve(game@), x as int) + row_changes(
                    game@,
                    evolve(game@),
                    x as int,
                    y as int,
                ),
                all_in_bounds(mutations@),
            decreases GAME_SIZE - y,
        {
            let current_is_alive = game.is_alive(x, y);
            let no_of_neighbours = game.count_neighbours(x, y);
            if current_is_alive && no_of_neighbours != 2 && no_of_neighbours != 3 {
                mutations.push(Mutation::Off(x, y));
            } else if !current_is_alive && no_of_neighbours == 3 {
                mutations.push(Mutation::On(x, y));
            }
            y += 1;
        }
        x += 1;
    }
    mutations
}

} // verus!
