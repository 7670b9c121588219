//! From the key codes that the terminal gives to the actions of a session.

use crate::session::{Action, Direction};
use vstd::prelude::*;

verus! {

/// The low eight bits of a key code: the byte that a plain key sends.
pub open spec fn low_byte(ch: i32) -> int {
    (ch as int) % 256
}

fn key_byte(ch: i32) -> (byte: u8)
    ensures
        byte == low_byte(ch),
{
    let byte: u8 = #[verifier::truncate] (ch as u8);
    assert(byte == (ch as int) % 256) by (bit_vector)
        requires
            byte == ch as u8,
    ;
    byte
}

/// The action bound to a plain key, if any.
pub open spec fn action_of_char(key: char) -> Option<Action> {
    if key == '>' {
        Some(Action::SpeedUp)
    } else if key == '<' {
        Some(Action::SpeedDown)
    } else if key == ' ' {
        Some(Action::ToggleRunning)
    } else if key == 'x' {
        Some(Action::ToggleFieldActive)
    } else if key == 'j' {
        Some(Action::Cursor(Direction::Up))
    } else if key == 'k' {
        Some(Action::Cursor(Direction::Down))
    } else if key == 'h' {
        Some(Action::Cursor(Direction::Left))
    } else if key == 'l' {
        Some(Action::Cursor(Direction::Right))
    } else if key == 's' {
        Some(Action::SaveToFile)
    } else if key == 'f' {
        Some(Action::LoadFromFile)
    } else if key == '?' {
        Some(Action::ToggleHelp)
    } else if key == 'q' {
        Some(Action::Quit)
    } else {
        None
    }
}

/// The action bound to a special key, by the code that curses gives it.
pub open spec fn action_of_code(ch: i32) -> Action {
    if ch == 0x104 {
        Action::Cursor(Direction::Left)
    } else if ch == 0x105 {
        Action::Cursor(Direction::Right)
    } else if ch == 0x103 {
        Action::Cursor(Direction::Down)
    } else if ch == 0x102 {
        Action::Cursor(Direction::Up)
    } else if ch == 0x109 {
        Action::ToggleHelp
    } else {
        Action::Idle
    }
}

/// The action that a key code stands for: that of the plain key in its low
/// byte if that key is bound, else that of the special key with this code.
pub open spec fn action_of_key(ch: i32) -> Action {
    match action_of_char(low_byte(ch) as char) {
        Some(action) => action,
        None => action_of_code(ch),
    }
}

/// `ncurses::KEY_LEFT`, the code of the left-arrow key, which the crate
/// defines as 0x104.
#[verifier::external_body]
fn key_left() -> (code: i32)
    ensures
        code == 0x104,
{
    ncurses::KEY_LEFT
}

/// `ncurses::KEY_RIGHT`, the code of the right-arrow key, which the crate
/// defines as 0x105.
#[verifier::external_body]
fn key_right() -> (code: i32)
    ensures
        code == 0x105,
{
    ncurses::KEY_RIGHT
}

/// `ncurses::KEY_UP`, the code of the up-arrow key, which the crate defines
/// as 0x103.
#[verifier::external_body]
fn key_up() -> (code: i32)
    ensures
        code == 0x103,
{
    ncurses::KEY_UP
}

/// `ncurses::KEY_DOWN`, the code of the down-arrow key, which the crate
/// defines as 0x102.
#[verifier::external_body]
fn key_down() -> (code: i32)
    ensures
        code == 0x102,
{
    ncurses::KEY_DOWN
}

/// `ncurses::KEY_F1`, the code of the first function key, which the crate
/// defines as 0x109.
#[verifier::external_body]
fn key_f1() -> (code: i32)
    ensures
        code == 0x109,
{
    ncurses::KEY_F1
}

/// Maps a key code, as curses reads it, to the action bound to it.
pub fn key_to_action(ch: i32) -> (action: Action)
    ensures
        action == action_of_key(ch),
{
    let key = key_byte(ch) as char;
    if key == '>' {
        Action::SpeedUp
    } else if key == '<' {
        Action::SpeedDown
    } else if key == ' ' {
        Action::ToggleRunning
    } else if key == 'x' {
        Action::ToggleFieldActive
    } else if key == 'j' {
        Action::Cursor(Direction::Up)
    } else if key == 'k' {
        Action::Cursor(Direction::Down)
    } else if key == 'h' {
        Action::Cursor(Direction::Left)
    } else if key == 'l' {
        Action::Cursor(Direction::Right)
    } else if key == 's' {
        Action::SaveToFile
    } else if key == 'f' {
        Action::LoadFromFile
    } else if key == '?' {
        Action::ToggleHelp
    } else if key == 'q' {
        Action::Quit
    } else if ch == key_left() {
        Action::Cursor(Direction::Left)
    } else if ch == key_right() {
        Action::Cursor(Direction::Right)
    } else if ch == key_up() {
        Action::Cursor(Direction::Down)
    } else if ch == key_down() {
        Action::Cursor(Direction::Up)
    } else if ch == key_f1() {
        Action::ToggleHelp
    } else {
        Action::Idle
    }
}

} // verus!
