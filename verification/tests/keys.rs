use conway_life::input::key_to_action;
use conway_life::session::{Action, Direction};

#[test]
fn plain_keys_are_bound() {
    assert_eq!(key_to_action('>' as i32), Action::SpeedUp);
    assert_eq!(key_to_action('<' as i32), Action::SpeedDown);
    assert_eq!(key_to_action(' ' as i32), Action::ToggleRunning);
    assert_eq!(key_to_action('x' as i32), Action::ToggleFieldActive);
    assert_eq!(key_to_action('j' as i32), Action::Cursor(Direction::Up));
    assert_eq!(key_to_action('k' as i32), Action::Cursor(Direction::Down));
    assert_eq!(key_to_action('h' as i32), Action::Cursor(Direction::Left));
    assert_eq!(key_to_action('l' as i32), Action::Cursor(Direction::Right));
    assert_eq!(key_to_action('s' as i32), Action::SaveToFile);
    assert_eq!(key_to_action('f' as i32), Action::LoadFromFile);
    assert_eq!(key_to_action('?' as i32), Action::ToggleHelp);
    assert_eq!(key_to_action('q' as i32), Action::Quit);
}

#[test]
fn arrow_keys_move_the_cursor() {
    assert_eq!(key_to_action(0x104), Action::Cursor(Direction::Left));
    assert_eq!(key_to_action(0x105), Action::Cursor(Direction::Right));
    assert_eq!(key_to_action(0x103), Action::Cursor(Direction::Down));
    assert_eq!(key_to_action(0x102), Action::Cursor(Direction::Up));
}

#[test]
fn arrow_keys_are_those_of_curses() {
    assert_eq!(key_to_action(ncurses::KEY_LEFT), Action::Cursor(Direction::Left));
    assert_eq!(key_to_action(ncurses::KEY_RIGHT), Action::Cursor(Direction::Right));
    assert_eq!(key_to_action(ncurses::KEY_UP), Action::Cursor(Direction::Down));
    assert_eq!(key_to_action(ncurses::KEY_DOWN), Action::Cursor(Direction::Up));
    assert_eq!(key_to_action(ncurses::KEY_F1), Action::ToggleHelp);
}

#[test]
fn first_function_key_toggles_the_help() {
    assert_eq!(key_to_action(0x109), Action::ToggleHelp);
}

#[test]
fn unbound_keys_do_nothing() {
    assert_eq!(key_to_action('a' as i32), Action::Idle);
    assert_eq!(key_to_action('X' as i32), Action::Idle);
    assert_eq!(key_to_action(0), Action::Idle);
    assert_eq!(key_to_action(0x108), Action::Idle);
    assert_eq!(key_to_action(0x10a), Action::Idle);
    assert_eq!(key_to_action(0x101), Action::Idle);
}

#[test]
fn no_key_does_nothing() {
    assert_eq!(key_to_action(-1), Action::Idle);
}

#[test]
fn only_the_low_byte_names_a_plain_key() {
    assert_eq!(key_to_action(0x100 + '>' as i32), Action::SpeedUp);
    assert_eq!(key_to_action(0x7fff_ff00 + 'q' as i32), Action::Quit);
    assert_eq!(key_to_action(-256 + ' ' as i32), Action::ToggleRunning);
    assert_eq!(key_to_action(i32::MIN + 's' as i32), Action::SaveToFile);
}
