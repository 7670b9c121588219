use conway_life::game::{Game, Mutation, GAME_SIZE};

fn live_cells(game: &Game) -> Vec<(usize, usize)> {
    let mut cells = Vec::new();
    for x in 0..GAME_SIZE {
        for y in 0..GAME_SIZE {
            if game.is_alive(x, y) {
                cells.push((x, y));
            }
        }
    }
    cells
}

#[test]
fn lines_are_rows_and_characters_are_columns() {
    let game = Game::new(&"..X.\n...X\n.XXX".to_string());
    assert_eq!(live_cells(&game), vec![(0, 2), (1, 3), (2, 1), (2, 2), (2, 3)]);
}

#[test]
fn only_the_capital_letter_marks_a_live_cell() {
    let game = Game::new(&"xX.#X 1\nX".to_string());
    assert_eq!(live_cells(&game), vec![(0, 1), (0, 4), (1, 0)]);
}

#[test]
fn indented_glider_is_read_as_written() {
    let text = "\n    ..X.\n    ...X \n    .XXX \n  ".to_string();
    let game = Game::new(&text);
    assert_eq!(live_cells(&game), vec![(1, 6), (2, 7), (3, 5), (3, 6), (3, 7)]);
}

#[test]
fn empty_text_gives_an_empty_board() {
    assert_eq!(Game::new(&String::new()), Game::empty());
}

#[test]
fn short_and_missing_lines_leave_cells_dead() {
    let game = Game::new(&"X\n\nXX".to_string());
    assert_eq!(live_cells(&game), vec![(0, 0), (2, 0), (2, 1)]);
    for x in 3..GAME_SIZE {
        for y in 0..GAME_SIZE {
            assert!(!game.is_alive(x, y));
        }
    }
}

#[test]
fn characters_past_the_edge_are_ignored() {
    let mut line = "X".repeat(GAME_SIZE + 10);
    line.push('\n');
    line.push_str(&".".repeat(GAME_SIZE));
    line.push('X');
    let game = Game::new(&line);
    let expected: Vec<(usize, usize)> = (0..GAME_SIZE).map(|y| (0, y)).collect();
    assert_eq!(live_cells(&game), expected);
}

#[test]
fn lines_past_the_edge_are_ignored() {
    let mut text = String::new();
    for _ in 0..GAME_SIZE {
        text.push_str(".\n");
    }
    text.push_str("XXXX\nXXXX\n");
    assert_eq!(Game::new(&text), Game::empty());
}

#[test]
fn last_row_and_column_are_read() {
    let mut text = String::new();
    for _ in 0..GAME_SIZE - 1 {
        text.push('\n');
    }
    text.push_str(&".".repeat(GAME_SIZE - 1));
    text.push('X');
    let game = Game::new(&text);
    assert_eq!(live_cells(&game), vec![(GAME_SIZE - 1, GAME_SIZE - 1)]);
}

#[test]
fn a_character_of_several_bytes_fills_one_column() {
    let game = Game::new(&"\u{e9}X\u{4e16}X".to_string());
    assert_eq!(live_cells(&game), vec![(0, 1), (0, 3)]);
}

#[test]
fn empty_board_is_written_as_rows_of_dots() {
    let mut expected = String::new();
    for _ in 0..GAME_SIZE {
        expected.push_str(&".".repeat(GAME_SIZE));
        expected.push('\n');
    }
    assert_eq!(Game::empty().to_text(), expected);
}

#[test]
fn written_text_has_a_line_per_row() {
    let mut game = Game::empty();
    game.mutate(vec![Mutation::On(0, 0), Mutation::On(1, 2), Mutation::On(63, 63)]);
    let text = game.to_text();
    assert_eq!(text.len(), GAME_SIZE * (GAME_SIZE + 1));
    let lines: Vec<&str> = text.split('\n').collect();
    assert_eq!(lines.len(), GAME_SIZE + 1);
    assert_eq!(lines[GAME_SIZE], "");
    assert_eq!(lines[0], format!("X{}", ".".repeat(GAME_SIZE - 1)));
    assert_eq!(lines[1], format!("..X{}", ".".repeat(GAME_SIZE - 3)));
    assert_eq!(lines[2], ".".repeat(GAME_SIZE));
    assert_eq!(lines[63], format!("{}X", ".".repeat(GAME_SIZE - 1)));
}

#[test]
fn written_board_reads_back_the_same() {
    let mut game = Game::empty();
    let mut cells = Vec::new();
    let mut seed: usize = 12345;
    for _ in 0..900 {
        seed = (seed * 1103515245 + 12345) % 2147483648;
        let x = (seed / 65536) % GAME_SIZE;
        seed = (seed * 1103515245 + 12345) % 2147483648;
        let y = (seed / 65536) % GAME_SIZE;
        cells.push(Mutation::Toggle(x, y));
    }
    game.mutate(cells);
    assert_ne!(game, Game::empty());
    let text = game.to_text();
    assert_eq!(Game::new(&text), game);
    assert_eq!(Game::new(&text).to_text(), text);
}

#[test]
fn full_and_empty_boards_read_back_the_same() {
    let mut full = Game::empty();
    let mut all = Vec::new();
    for x in 0..GAME_SIZE {
        for y in 0..GAME_SIZE {
            all.push(Mutation::On(x, y));
        }
    }
    full.mutate(all);
    assert_eq!(Game::new(&full.to_text()), full);
    assert_eq!(Game::new(&Game::empty().to_text()), Game::empty());
}
