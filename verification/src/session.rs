//! The interactive session around a board: cursor, speed, run state and the
//! actions that change them.

use crate::game::{add_mod_game_size, game_of_life, Game, Mutation, GAME_SIZE};
use crate::grid::{apply_one, evolve, on_board, wrap, Grid};
use crate::pattern::{parse, render};
use vstd::prelude::*;

verus! {

/// A direction in which the cursor moves.
#[derive(Clone, Copy, Debug, PartialEq, Eq)]
pub enum Direction {
    Up,
    Down,
    Left,
    Right,
}

/// A command from the user, already freed of the key that gave it.
#[derive(Clone, Copy, Debug, PartialEq, Eq)]
pub enum Action {
    SpeedUp,
    SpeedDown,
    ToggleHelp,
    ToggleRunning,
    ToggleFieldActive,
    Cursor(Direction),
    SaveToFile,
    LoadFromFile,
    Quit,
    /// No command: the key, if there was one, means nothing.
    Idle,
}

/// Reading or writing the saved board failed.
#[derive(Clone, Copy, Debug, PartialEq, Eq)]
pub struct IoError;

/// What is left for the caller to do once an action has been handled.
#[must_use]
#[derive(Clone, Debug, PartialEq, Eq)]
pub enum Effect {
    /// Nothing.
    Nothing,
    /// Leave the loop.
    Quit,
    /// Write this text to the save file, replacing what it held.
    Save(String),
    /// Read the save file and hand what it held to `complete_load`.
    Load,
}

/// The state of a session. Its speed is two to the power of `speed_log2`.
pub struct GameState {
    game: Game,
    speed_log2: i32,
    is_running: bool,
    is_displaying_help: bool,
    cursor_x: usize,
    cursor_y: usize,
}

/// The session as contracts see it.
pub struct Session {
    pub board: Grid,
    pub speed_log2: int,
    pub is_running: bool,
    pub is_displaying_help: bool,
    pub cursor_x: int,
    pub cursor_y: int,
}

impl Session {
    /// The cursor is on the board.
    pub open spec fn cursor_on_board(self) -> bool {
        on_board(self.cursor_x) && on_board(self.cursor_y)
    }
}

/// The step that a direction stands for, as row and column offsets.
pub open spec fn step_of(direction: Direction) -> (int, int) {
    match direction {
        Direction::Up => (1, 0),
        Direction::Down => (-1, 0),
        Direction::Left => (0, -1),
        Direction::Right => (0, 1),
    }
}

/// The session that an action leaves behind.
pub open spec fn after_action(session: Session, action: Action) -> Session {
    match action {
        Action::SpeedUp => Session { speed_log2: session.speed_log2 + 1, ..session },
        Action::SpeedDown => Session { speed_log2: session.speed_log2 - 1, ..session },
        Action::ToggleRunning => Session { is_running: !session.is_running, ..session },
        Action::ToggleHelp => Session {
            is_displaying_help: !session.is_displaying_help,
            is_running: if session.is_displaying_help {
                session.is_running
            } else {
                false
            },
            ..session
        },
        Action::Cursor(direction) => Session {
            cursor_x: wrap(session.cursor_x, step_of(direction).0),
            cursor_y: wrap(session.cursor_y, step_of(direction).1),
            ..session
        },
        Action::ToggleFieldActive => Session {
            board: apply_one(
                session.board,
                Mutation::Toggle(session.cursor_x as usize, session.cursor_y as usize),
            ),
            ..session
        },
        Action::LoadFromFile => Session { is_running: false, ..session },
        Action::SaveToFile | Action::Quit | Action::Idle => session,
    }
}

/// An action leaves the cursor on the board.
pub proof fn lemma_cursor_stays_on_board(session: Session, action: Action)
    requires
        session.cursor_on_board(),
    ensures
        after_action(session, action).cursor_on_board(),
{
}

impl View for GameState {
    type V = Session;

    closed spec fn view(&self) -> Session {
        Session {
            board: self.game@,
            speed_log2: self.speed_log2 as int,
            is_running: self.is_running,
            is_displaying_help: self.is_displaying_help,
            cursor_x: self.cursor_x as int,
            cursor_y: self.cursor_y as int,
        }
    }
}

impl GameState {
    #[verifier::type_invariant]
    closed spec fn cursor_stays_on_board(&self) -> bool {
        self.cursor_x < GAME_SIZE && self.cursor_y < GAME_SIZE
    }

    /// A session on the given board: paused, at speed one, with the help
    /// shown and the cursor in the first cell.
    pub fn new(game: Game) -> (state: GameState)
        ensures
            state@ == (Session {
                board: game@,
                speed_log2: 0,
                is_running: false,
                is_displaying_help: true,
                cursor_x: 0,
                cursor_y: 0,
            }),
    {
        GameState {
            game,
            speed_log2: 0,
            is_running: false,
            is_displaying_help: true,
            cursor_x: 0,
            cursor_y: 0,
        }
    }

    /// The board.
    pub fn game(&self) -> (game: &Game)
        ensures
            game@ == self@.board,
    {
        &self.game
    }

    /// The binary logarithm of the speed.
    pub fn speed_log2(&self) -> (exponent: i32)
        ensures
            exponent == self@.speed_log2,
    {
        self.speed_log2
    }

    /// Whether the simulation advances.
    pub fn is_running(&self) -> (running: bool)
        ensures
            running == self@.is_running,
    {
        self.is_running
    }

    /// Whether the help is shown in place of the board.
    pub fn is_displaying_help(&self) -> (shown: bool)
        ensures
            shown == self@.is_displaying_help,
    {
        self.is_displaying_help
    }

    /// The cursor's row.
    pub fn cursor_x(&self) -> (x: usize)
        ensures
            x == self@.cursor_x,
            x < GAME_SIZE,
    {
        proof {
            use_type_invariant(self);
        }
        self.cursor_x
    }

    /// The cursor's column.
    pub fn cursor_y(&self) -> (y: usize)
        ensures
            y == self@.cursor_y,
            y < GAME_SIZE,
    {
        proof {
            use_type_invariant(self);
        }
        self.cursor_y
    }

    /// Advances the board by one generation. Nothing else changes.
    pub fn step(&mut self)
        ensures
            final(self)@ == (Session { board: evolve(old(self)@.board), ..old(self)@ }),
    {
        let mutations = game_of_life(&self.game);
        proof {
            use_type_invariant(&*self);
        }
        self.game.mutate(mutations);
    }

    /// Ends a load: takes the board from the text that was read, or, where
    /// reading failed, leaves the session as it is and passes the failure on.
    pub fn complete_load(&mut self, read: Result<String, IoError>) -> (done: Result<(), IoError>)
        ensures
            match read {
                Ok(text) => done is Ok && final(self)@ == (Session {
                    board: parse(text@),
                    ..old(self)@
                }),
                Err(failure) => done == Err::<(), IoError>(failure) && final(self)@ == old(self)@,
            },
    {
        proof {
            use_type_invariant(&*self);
        }
        match read {
            Ok(text) => {
                self.game = Game::new(&text);
                Ok(())
            },
            Err(failure) => Err(failure),
        }
    }
}

/// Carries out an action on the session and says what is left for the caller
/// to do: nothing, leave, write the board out, or read one in.
pub fn handle_action(a: Action, game_state: &mut GameState) -> (effect: Effect)
    requires
        a == Action::SpeedUp ==> old(game_state)@.speed_log2 < i32::MAX,
        a == Action::SpeedDown ==> old(game_state)@.speed_log2 > i32::MIN,
    ensures
        final(game_state)@ == after_action(old(game_state)@, a),
        final(game_state)@.cursor_on_board(),
        match a {
            Action::SaveToFile => effect matches Effect::Save(text) && text@ == render(
                old(game_state)@.board,
            ),
            Action::LoadFromFile => effect is Load,
            Action::Quit => effect is Quit,
            _ => effect is Nothing,
        },
{
    proof {
        use_type_invariant(&*game_state);
    }
    match a {
        Action::SpeedUp => {
            game_state.speed_log2 = game_state.speed_log2 + 1;
            Effect::Nothing
        },
        Action::SpeedDown => {
            game_state.speed_log2 = game_state.speed_log2 - 1;
            Effect::Nothing
        },
        Action::ToggleRunning => {
            game_state.is_running = !game_state.is_running;
            Effect::Nothing
        },
        Action::Cursor(x) => {
            let (mod_x, mod_y): (i8, i8) = match x {
                Direction::Up => (1i8, 0i8),
                Direction::Down => (-1, 0),
                Direction::Left => (0, -1),
                Direction::Right => (0, 1),
            };
            game_state.cursor_x = add_mod_game_size(game_state.cursor_x, mod_x);
            game_state.cursor_y = add_mod_game_size(game_state.cursor_y, mod_y);
            Effect::Nothing
        },
        Action::ToggleHelp => {
            game_state.is_displaying_help = !game_state.is_displaying_help;
            if game_state.is_displaying_help {
                game_state.is_running = false;
            }
            Effect::Nothing
        },
        Action::SaveToFile => Effect::Save(game_state.game.to_text()),
        Action::LoadFromFile => {
            game_state.is_running = false;
            Effect::Load
        },
        Action::ToggleFieldActive => {
            let (cur_x, cur_y) = (game_state.cursor_x, game_state.cursor_y);
            game_state.game.mutate_single(Mutation::Toggle(cur_x, cur_y));
            Effect::Nothing
        },
        Action::Quit => Effect::Quit,
        Action::Idle => Effect::Nothing,
    }
}

} // verus!
