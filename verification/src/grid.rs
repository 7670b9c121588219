//! The mathematical model of the board: a grid of booleans on a torus, the
//! effect of mutations on it, and the rule that produces the next generation.

use crate::game::{Mutation, GAME_SIZE};
use vstd::prelude::*;

verus! {

/// Rows of cells; `grid[x][y]` is true when the cell in row `x`, column `y` is alive.
pub type Grid = Seq<Seq<bool>>;

/// A grid has `GAME_SIZE` rows of `GAME_SIZE` cells each.
pub open spec fn well_formed(grid: Grid) -> bool {
    &&& grid.len() == GAME_SIZE
    &&& forall|x: int| 0 <= x < GAME_SIZE ==> (#[trigger] grid[x]).len() == GAME_SIZE
}

/// The coordinate lies on the board.
pub open spec fn on_board(coord: int) -> bool {
    0 <= coord < GAME_SIZE
}

/// The grid in which every cell is dead.
pub open spec fn dead_grid() -> Grid {
    Seq::new(GAME_SIZE as nat, |x: int| Seq::new(GAME_SIZE as nat, |y: int| false))
}

/// Moves a coordinate by an offset on the torus: a result below zero comes
/// back in from the far edge, a result past the far edge from zero.
pub open spec fn wrap(coord: int, offset: int) -> int {
    let moved = coord + offset;
    if moved < 0 {
        moved + GAME_SIZE
    } else if moved >= GAME_SIZE {
        moved - GAME_SIZE
    } else {
        moved
    }
}

/// 1 if the cell at offset `(dx, dy)` from `(x, y)` on the torus is alive, else 0.
pub open spec fn neighbour(grid: Grid, x: int, y: int, dx: int, dy: int) -> nat {
    if grid[wrap(x, dx)][wrap(y, dy)] {
        1
    } else {
        0
    }
}

/// How many of the eight cells around `(x, y)` are alive.
pub open spec fn neighbour_count(grid: Grid, x: int, y: int) -> nat {
    neighbour(grid, x, y, 1, -1) + neighbour(grid, x, y, 1, 0) + neighbour(grid, x, y, 1, 1)
        + neighbour(grid, x, y, 0, -1) + neighbour(grid, x, y, 0, 1)
        + neighbour(grid, x, y, -1, -1) + neighbour(grid, x, y, -1, 0)
        + neighbour(grid, x, y, -1, 1)
}

/// The cell that a mutation changes.
pub open spec fn target(mutation: Mutation) -> (int, int) {
    match mutation {
        Mutation::On(x, y) => (x as int, y as int),
        Mutation::Off(x, y) => (x as int, y as int),
        Mutation::Toggle(x, y) => (x as int, y as int),
    }
}

/// The mutation names a cell of the board.
pub open spec fn in_bounds(mutation: Mutation) -> bool {
    on_board(target(mutation).0) && on_board(target(mutation).1)
}

/// Every mutation of the sequence names a cell of the board.
pub open spec fn all_in_bounds(mutations: Seq<Mutation>) -> bool {
    forall|i: int| 0 <= i < mutations.len() ==> in_bounds(#[trigger] mutations[i])
}

/// The grid with cell `(x, y)` set to `alive` and every other cell as before.
pub open spec fn set_cell(grid: Grid, x: int, y: int, alive: bool) -> Grid {
    grid.update(x, grid[x].update(y, alive))
}

/// The grid after one mutation. `Toggle` reads the cell as it is in `grid`.
pub open spec fn apply_one(grid: Grid, mutation: Mutation) -> Grid {
    match mutation {
        Mutation::On(x, y) => set_cell(grid, x as int, y as int, true),
        Mutation::Off(x, y) => set_cell(grid, x as int, y as int, false),
        Mutation::Toggle(x, y) => set_cell(grid, x as int, y as int, !grid[x as int][y as int]),
    }
}

/// The grid after the mutations have been applied one after another, first to last.
pub open spec fn apply_all(grid: Grid, mutations: Seq<Mutation>) -> Grid
    decreases mutations.len(),
{
    if mutations.len() == 0 {
        grid
    } else {
        apply_one(apply_all(grid, mutations.drop_last()), mutations.last())
    }
}

/// Whether cell `(x, y)` is alive in the generation after `grid`: a live cell
/// stays alive with two or three live neighbours, a dead one is born with three.
pub open spec fn alive_next(grid: Grid, x: int, y: int) -> bool {
    let around = neighbour_count(grid, x, y);
    if grid[x][y] {
        around == 2 || around == 3
    } else {
        around == 3
    }
}

/// The generation after `grid`.
pub open spec fn evolve(grid: Grid) -> Grid {
    Seq::new(
        GAME_SIZE as nat,
        |x: int| Seq::new(GAME_SIZE as nat, |y: int| alive_next(grid, x, y)),
    )
}

/// The mutation that takes cell `(x, y)` from `now` to `later`, if they differ.
pub open spec fn change(now: bool, later: bool, x: int, y: int) -> Option<Mutation> {
    if now && !later {
        Some(Mutation::Off(x as usize, y as usize))
    } else if !now && later {
        Some(Mutation::On(x as usize, y as usize))
    } else {
        None
    }
}

/// The mutations that take the first `columns` cells of row `x` from their
/// state in `from` to their state in `to`, left to right.
pub open spec fn row_changes(from: Grid, to: Grid, x: int, columns: int) -> Seq<Mutation>
    decreases columns,
{
    if columns <= 0 {
        Seq::empty()
    } else {
        let before = row_changes(from, to, x, columns - 1);
        match change(from[x][columns - 1], to[x][columns - 1], x, columns - 1) {
            Some(mutation) => before.push(mutation),
            None => before,
        }
    }
}

/// The mutations that take the first `rows` rows from `from` to `to`, row by row.
pub open spec fn changes(from: Grid, to: Grid, rows: int) -> Seq<Mutation>
    decreases rows,
{
    if rows <= 0 {
        Seq::empty()
    } else {
        changes(from, to, rows - 1) + row_changes(from, to, rows - 1, GAME_SIZE as int)
    }
}

/// What the rule asks for: in row-major order, `Off` for each live cell that
/// does not have two or three live neighbours and `On` for each dead cell that
/// has exactly three, judged on `grid` as it stands.
pub open spec fn next_generation(grid: Grid) -> Seq<Mutation> {
    changes(grid, evolve(grid), GAME_SIZE as int)
}

/// The grid whose first `rows` rows and first `columns` cells of row `rows`
/// are those of `to`, and whose other cells are those of `from`.
spec fn partly_changed(from: Grid, to: Grid, rows: int, columns: int) -> Grid {
    Seq::new(
        GAME_SIZE as nat,
        |x: int|
            Seq::new(
                GAME_SIZE as nat,
                |y: int|
                    if x < rows || (x == rows && y < columns) {
                        to[x][y]
                    } else {
                        from[x][y]
                    },
            ),
    )
}

/// Wrapping keeps a coordinate on the board for any offset of at most one
/// board length, and agrees with the remainder modulo the board length. In
/// particular one step down from zero gives the last coordinate, and one step
/// up from the last gives zero.
pub proof fn lemma_wrap_on_board(coord: int, offset: int)
    requires
        on_board(coord),
        -GAME_SIZE <= offset <= GAME_SIZE,
    ensures
        on_board(wrap(coord, offset)),
        wrap(coord, offset) == (coord + offset) % (GAME_SIZE as int),
        wrap(0, -1) == GAME_SIZE - 1,
        wrap(GAME_SIZE - 1, 1) == 0,
{
}

/// A neighbour count never exceeds eight.
pub proof fn lemma_neighbour_count_at_most_eight(grid: Grid, x: int, y: int)
    ensures
        neighbour_count(grid, x, y) <= 8,
{
}

/// Applying a sequence with one more mutation at its end is applying the
/// sequence and then that mutation.
pub proof fn lemma_apply_all_push(grid: Grid, mutations: Seq<Mutation>, last: Mutation)
    ensures
        apply_all(grid, mutations.push(last)) == apply_one(apply_all(grid, mutations), last),
{
    assert(mutations.push(last).drop_last() =~= mutations);
}

/// Applying two sequences one after the other is applying their concatenation.
pub proof fn lemma_apply_all_concat(grid: Grid, first: Seq<Mutation>, second: Seq<Mutation>)
    ensures
        apply_all(grid, first + second) == apply_all(apply_all(grid, first), second),
    decreases second.len(),
{
    if second.len() == 0 {
        assert(first + second =~= first);
    } else {
        lemma_apply_all_concat(grid, first, second.drop_last());
        assert((first + second).drop_last() =~= first + second.drop_last());
    }
}

/// Mutations within bounds keep a grid well formed.
pub proof fn lemma_apply_all_well_formed(grid: Grid, mutations: Seq<Mutation>)
    requires
        well_formed(grid),
        all_in_bounds(mutations),
    ensures
        well_formed(apply_all(grid, mutations)),
    decreases mutations.len(),
{
    if mutations.len() > 0 {
        lemma_apply_all_well_formed(grid, mutations.drop_last());
        assert(in_bounds(mutations[mutations.len() - 1]));
    }
}

/// Toggling a cell twice leaves the grid as it was, whether the two toggles
/// come in one sequence or in two sequences applied one after the other.
pub proof fn lemma_toggle_twice(grid: Grid, x: usize, y: usize)
    requires
        well_formed(grid),
        on_board(x as int),
        on_board(y as int),
    ensures
        apply_all(grid, seq![Mutation::Toggle(x, y), Mutation::Toggle(x, y)]) == grid,
        apply_all(apply_all(grid, seq![Mutation::Toggle(x, y)]), seq![Mutation::Toggle(x, y)])
            == grid,
{
    let toggle = Mutation::Toggle(x, y);
    let once = seq![toggle];
    lemma_apply_all_push(grid, Seq::empty(), toggle);
    assert(Seq::<Mutation>::empty().push(toggle) =~= once);
    let flipped = apply_one(grid, toggle);
    assert(apply_all(grid, once) == flipped);
    lemma_apply_all_push(flipped, Seq::empty(), toggle);
    assert(apply_one(flipped, toggle) =~~= grid);
    lemma_apply_all_push(grid, once, toggle);
    assert(once.push(toggle) =~= seq![toggle, toggle]);
}

/// Of two mutations that set the same cell, the later one decides: switching
/// a cell on and then off leaves it dead, off and then on leaves it alive, and
/// no other cell changes.
pub proof fn lemma_last_write_wins(grid: Grid, x: usize, y: usize)
    requires
        well_formed(grid),
        on_board(x as int),
        on_board(y as int),
    ensures
        apply_all(grid, seq![Mutation::On(x, y), Mutation::Off(x, y)]) == set_cell(
            grid,
            x as int,
            y as int,
            false,
        ),
        apply_all(grid, seq![Mutation::Off(x, y), Mutation::On(x, y)]) == set_cell(
            grid,
            x as int,
            y as int,
            true,
        ),
        !apply_all(grid, seq![Mutation::On(x, y), Mutation::Off(x, y)])[x as int][y as int],
        apply_all(grid, seq![Mutation::Off(x, y), Mutation::On(x, y)])[x as int][y as int],
{
    let on = Mutation::On(x, y);
    let off = Mutation::Off(x, y);
    lemma_apply_all_push(grid, Seq::empty(), on);
    lemma_apply_all_push(grid, Seq::empty(), off);
    assert(Seq::<Mutation>::empty().push(on) =~= seq![on]);
    assert(Seq::<Mutation>::empty().push(off) =~= seq![off]);
    lemma_apply_all_push(grid, seq![on], off);
    lemma_apply_all_push(grid, seq![off], on);
    assert(seq![on].push(off) =~= seq![on, off]);
    assert(seq![off].push(on) =~= seq![off, on]);
    assert(apply_one(apply_one(grid, on), off) =~~= set_cell(grid, x as int, y as int, false));
    assert(apply_one(apply_one(grid, off), on) =~~= set_cell(grid, x as int, y as int, true));
}

/// Applying the changes for the cells before `(x, columns)` in row-major order
/// gives those cells their state in `to` and leaves the others untouched.
proof fn lemma_changes_progress(from: Grid, to: Grid, x: int, columns: int)
    requires
        well_formed(from),
        well_formed(to),
        0 <= x < GAME_SIZE,
        0 <= columns <= GAME_SIZE,
    ensures
        apply_all(from, changes(from, to, x) + row_changes(from, to, x, columns))
            == partly_changed(from, to, x, columns),
    decreases x, columns,
{
    let done = changes(from, to, x);
    if columns == 0 {
        assert(done + row_changes(from, to, x, 0) =~= done);
        if x == 0 {
            assert(partly_changed(from, to, 0, 0) =~~= from);
        } else {
            lemma_changes_progress(from, to, x - 1, GAME_SIZE as int);
            assert(partly_changed(from, to, x - 1, GAME_SIZE as int) =~~= partly_changed(
                from,
                to,
                x,
                0,
            ));
        }
    } else {
        lemma_changes_progress(from, to, x, columns - 1);
        let before = row_changes(from, to, x, columns - 1);
        let reached = partly_changed(from, to, x, columns - 1);
        match change(from[x][columns - 1], to[x][columns - 1], x, columns - 1) {
            Some(mutation) => {
                assert(done + before.push(mutation) =~= (done + before).push(mutation));
                lemma_apply_all_push(from, done + before, mutation);
                assert(apply_one(reached, mutation) =~~= partly_changed(from, to, x, columns));
            },
            None => {
                assert(reached =~~= partly_changed(from, to, x, columns));
            },
        }
    }
}

/// The changes between two grids, applied to the first, give the second.
pub proof fn lemma_changes_lead_there(from: Grid, to: Grid)
    requires
        well_formed(from),
        well_formed(to),
    ensures
        apply_all(from, changes(from, to, GAME_SIZE as int)) == to,
{
    let last = GAME_SIZE - 1;
    lemma_changes_progress(from, to, last, GAME_SIZE as int);
    assert(changes(from, to, GAME_SIZE as int) == changes(from, to, last) + row_changes(
        from,
        to,
        last,
        GAME_SIZE as int,
    ));
    assert(partly_changed(from, to, last, GAME_SIZE as int) =~~= to);
}

/// The position of a mutation's cell in row-major order.
spec fn rank(mutation: Mutation) -> int {
    target(mutation).0 * GAME_SIZE + target(mutation).1
}

/// The changes of one row name cells of that row, from left to right.
proof fn lemma_row_changes_ordered(from: Grid, to: Grid, x: int, columns: int)
    requires
        0 <= x < GAME_SIZE,
        0 <= columns <= GAME_SIZE,
    ensures
        forall|i: int|
            0 <= i < row_changes(from, to, x, columns).len() ==> {
                let cell = target(#[trigger] row_changes(from, to, x, columns)[i]);
                cell.0 == x && 0 <= cell.1 < columns
            },
        forall|i: int, j: int|
            0 <= i < j < row_changes(from, to, x, columns).len() ==> rank(
                #[trigger] row_changes(from, to, x, columns)[i],
            ) < rank(#[trigger] row_changes(from, to, x, columns)[j]),
    decreases columns,
{
    if columns > 0 {
        lemma_row_changes_ordered(from, to, x, columns - 1);
        let before = row_changes(from, to, x, columns - 1);
        let all = row_changes(from, to, x, columns);
        assert forall|i: int| 0 <= i < all.len() implies {
            let cell = target(#[trigger] all[i]);
            cell.0 == x && 0 <= cell.1 < columns
        } by {
            if i < before.len() {
                assert(all[i] == before[i]);
            }
        }
        assert forall|i: int, j: int| 0 <= i < j < all.len() implies rank(#[trigger] all[i])
            < rank(#[trigger] all[j]) by {
            assert(all[i] == before[i]);
            if j < before.len() {
                assert(all[j] == before[j]);
            }
        }
    }
}

/// The changes of the first rows name cells of those rows, in row-major order.
proof fn lemma_changes_ordered(from: Grid, to: Grid, rows: int)
    requires
        0 <= rows <= GAME_SIZE,
    ensures
        forall|i: int|
            0 <= i < changes(from, to, rows).len() ==> {
                let cell = target(#[trigger] changes(from, to, rows)[i]);
                0 <= cell.0 < rows && 0 <= cell.1 < GAME_SIZE
            },
        forall|i: int, j: int|
            0 <= i < j < changes(from, to, rows).len() ==> rank(
                #[trigger] changes(from, to, rows)[i],
            ) < rank(#[trigger] changes(from, to, rows)[j]),
    decreases rows,
{
    if rows > 0 {
        lemma_changes_ordered(from, to, rows - 1);
        lemma_row_changes_ordered(from, to, rows - 1, GAME_SIZE as int);
        let done = changes(from, to, rows - 1);
        let row = row_changes(from, to, rows - 1, GAME_SIZE as int);
        let all = changes(from, to, rows);
        assert(all == done + row);
        assert forall|i: int| 0 <= i < all.len() implies {
            let cell = target(#[trigger] all[i]);
            0 <= cell.0 < rows && 0 <= cell.1 < GAME_SIZE
        } by {
            if i >= done.len() {
                assert(all[i] == row[i - done.len()]);
            }
        }
        assert forall|i: int, j: int| 0 <= i < j < all.len() implies rank(#[trigger] all[i])
            < rank(#[trigger] all[j]) by {
            if i >= done.len() {
                assert(all[i] == row[i - done.len()]);
                assert(all[j] == row[j - done.len()]);
            } else if j >= done.len() {
                assert(all[i] == done[i]);
                assert(all[j] == row[j - done.len()]);
            }
        }
    }
}

/// The changes that the rule asks for stay on the board and name each cell at
/// most once, so the order in which they are applied does not matter.
pub proof fn lemma_next_generation_distinct(grid: Grid)
    ensures
        all_in_bounds(next_generation(grid)),
        forall|i: int, j: int|
            0 <= i < j < next_generation(grid).len() ==> target(
                #[trigger] next_generation(grid)[i],
            ) != target(#[trigger] next_generation(grid)[j]),
{
    lemma_changes_ordered(grid, evolve(grid), GAME_SIZE as int);
    let all = next_generation(grid);
    assert forall|i: int, j: int| 0 <= i < j < all.len() implies target(#[trigger] all[i])
        != target(#[trigger] all[j]) by {
        assert(rank(all[i]) < rank(all[j]));
    }
}

/// Applying the changes that the rule asks for yields the next generation:
/// every cell gets the state that the rule gives it in the current generation,
/// whatever the changes to the cells before it.
pub proof fn lemma_next_generation_evolves(grid: Grid)
    requires
        well_formed(grid),
    ensures
        apply_all(grid, next_generation(grid)) == evolve(grid),
{
    lemma_changes_lead_there(grid, evolve(grid));
}

} // verus!
