use conway_life::game::{game_of_life, Game, Mutation, GAME_SIZE};

fn board_with(cells: &[(usize, usize)]) -> Game {
    let mut game = Game::empty();
    game.mutate(cells.iter().map(|&(x, y)| Mutation::On(x, y)).collect());
    game
}

fn live_cells(game: &Game) -> Vec<(usize, usize)> {
    let mut cells = Vec::new();
    for x in 0..GAME_SIZE {
        for y in 0..GAME_SIZE {
            if game.is_alive(x, y) {
                cells.push((x, y));
            }
        }
    }
    cells
}

#[test]
fn empty_board_has_no_live_cell() {
    assert_eq!(live_cells(&Game::empty()), vec![]);
}

#[test]
fn empty_board_stays_empty() {
    assert_eq!(game_of_life(&Game::empty()), vec![]);
}

#[test]
fn block_is_a_still_life() {
    let game = board_with(&[(1, 1), (1, 2), (2, 1), (2, 2)]);
    assert_eq!(game_of_life(&game), vec![]);
}

#[test]
fn blinker_oscillates() {
    let mut game = board_with(&[(5, 4), (5, 5), (5, 6)]);
    let first = game_of_life(&game);
    game.mutate(first);
    assert_eq!(live_cells(&game), vec![(4, 5), (5, 5), (6, 5)]);
    let second = game_of_life(&game);
    game.mutate(second);
    assert_eq!(live_cells(&game), vec![(5, 4), (5, 5), (5, 6)]);
}

#[test]
fn blinker_changes_come_in_row_major_order() {
    let game = board_with(&[(5, 4), (5, 5), (5, 6)]);
    assert_eq!(
        game_of_life(&game),
        vec![
            Mutation::On(4, 5),
            Mutation::Off(5, 4),
            Mutation::Off(5, 6),
            Mutation::On(6, 5),
        ]
    );
}

#[test]
fn rule_does_not_touch_the_board() {
    let game = board_with(&[(5, 4), (5, 5), (5, 6)]);
    let before = game.clone();
    let _ = game_of_life(&game);
    assert_eq!(game, before);
}

#[test]
fn lone_cell_dies() {
    let mut game = board_with(&[(10, 10)]);
    let changes = game_of_life(&game);
    assert_eq!(changes, vec![Mutation::Off(10, 10)]);
    game.mutate(changes);
    assert_eq!(live_cells(&game), vec![]);
}

#[test]
fn crowded_cell_dies_and_corners_survive() {
    // A plus sign: the centre has four neighbours.
    let mut game = board_with(&[(10, 9), (9, 10), (10, 10), (11, 10), (10, 11)]);
    assert_eq!(game.count_neighbours(10, 10), 4);
    let changes = game_of_life(&game);
    game.mutate(changes);
    assert!(!game.is_alive(10, 10));
    assert_eq!(
        live_cells(&game),
        vec![(9, 9), (9, 10), (9, 11), (10, 9), (10, 11), (11, 9), (11, 10), (11, 11)]
    );
}

#[test]
fn neighbours_are_counted_across_the_edges() {
    let last = GAME_SIZE - 1;
    let game = board_with(&[(last, last), (last, 0), (0, last), (1, 1), (0, 0)]);
    assert_eq!(game.count_neighbours(0, 0), 4);
    assert_eq!(game.count_neighbours(last, last), 3);
    assert_eq!(game.count_neighbours(30, 30), 0);
}

#[test]
fn neighbour_count_reaches_eight_and_leaves_out_the_cell_itself() {
    let mut cells = Vec::new();
    for x in 19..22 {
        for y in 19..22 {
            cells.push((x, y));
        }
    }
    let game = board_with(&cells);
    assert_eq!(game.count_neighbours(20, 20), 8);
    assert_eq!(game.count_neighbours(19, 19), 3);
    assert_eq!(game.count_neighbours(18, 18), 1);
}

#[test]
fn blinker_wraps_around_the_corner() {
    let last = GAME_SIZE - 1;
    let mut game = board_with(&[(0, last), (0, 0), (0, 1)]);
    let changes = game_of_life(&game);
    assert_eq!(
        changes,
        vec![
            Mutation::Off(0, 1),
            Mutation::Off(0, last),
            Mutation::On(1, 0),
            Mutation::On(last, 0),
        ]
    );
    game.mutate(changes);
    assert_eq!(live_cells(&game), vec![(0, 0), (1, 0), (last, 0)]);
}

#[test]
fn each_cell_changes_at_most_once_per_generation() {
    let game = board_with(&[(3, 3), (3, 4), (4, 3), (5, 5), (5, 6), (6, 6), (0, 0), (63, 63)]);
    let changes = game_of_life(&game);
    let mut seen = Vec::new();
    for change in changes {
        let cell = match change {
            Mutation::On(x, y) | Mutation::Off(x, y) | Mutation::Toggle(x, y) => (x, y),
        };
        assert!(cell.0 < GAME_SIZE && cell.1 < GAME_SIZE);
        assert!(!seen.contains(&cell));
        seen.push(cell);
    }
}

#[test]
fn on_and_off_set_the_cell_whatever_it_was() {
    let mut game = Game::empty();
    game.mutate_single(Mutation::On(2, 3));
    assert!(game.is_alive(2, 3));
    game.mutate_single(Mutation::On(2, 3));
    assert!(game.is_alive(2, 3));
    game.mutate_single(Mutation::Off(2, 3));
    assert!(!game.is_alive(2, 3));
    game.mutate_single(Mutation::Off(2, 3));
    assert!(!game.is_alive(2, 3));
    assert_eq!(game, Game::empty());
}

#[test]
fn toggle_flips_the_cell() {
    let mut game = Game::empty();
    game.mutate_single(Mutation::Toggle(7, 8));
    assert_eq!(live_cells(&game), vec![(7, 8)]);
    game.mutate_single(Mutation::Toggle(7, 8));
    assert_eq!(live_cells(&game), vec![]);
}

#[test]
fn two_toggles_in_one_call_change_nothing() {
    let mut game = board_with(&[(1, 1), (9, 9)]);
    let before = game.clone();
    game.mutate(vec![Mutation::Toggle(9, 9), Mutation::Toggle(9, 9)]);
    assert_eq!(game, before);
    game.mutate(vec![Mutation::Toggle(4, 4), Mutation::Toggle(4, 4)]);
    assert_eq!(game, before);
}

#[test]
fn two_toggles_in_two_calls_change_nothing() {
    let mut game = board_with(&[(1, 1), (9, 9)]);
    let before = game.clone();
    game.mutate(vec![Mutation::Toggle(9, 9)]);
    assert_ne!(game, before);
    game.mutate(vec![Mutation::Toggle(9, 9)]);
    assert_eq!(game, before);
}

#[test]
fn toggle_reads_the_cell_as_earlier_mutations_left_it() {
    let mut game = Game::empty();
    game.mutate(vec![Mutation::Toggle(3, 3), Mutation::On(3, 3), Mutation::Toggle(3, 3)]);
    assert!(!game.is_alive(3, 3));
    game.mutate(vec![Mutation::Toggle(3, 3), Mutation::Off(3, 3), Mutation::Toggle(3, 3)]);
    assert!(game.is_alive(3, 3));
}

#[test]
fn last_write_wins() {
    let mut game = Game::empty();
    game.mutate(vec![Mutation::On(6, 2), Mutation::Off(6, 2)]);
    assert!(!game.is_alive(6, 2));
    game.mutate(vec![Mutation::Off(6, 2), Mutation::On(6, 2)]);
    assert!(game.is_alive(6, 2));
    assert_eq!(live_cells(&game), vec![(6, 2)]);
}

#[test]
fn no_mutations_change_nothing() {
    let mut game = board_with(&[(1, 2)]);
    let before = game.clone();
    game.mutate(vec![]);
    assert_eq!(game, before);
}

#[test]
fn mutations_touch_only_their_own_cell() {
    let mut game = board_with(&[(0, 0), (0, 1), (1, 0)]);
    game.mutate(vec![Mutation::Off(0, 1), Mutation::On(63, 63), Mutation::Toggle(1, 0)]);
    assert_eq!(live_cells(&game), vec![(0, 0), (63, 63)]);
}
