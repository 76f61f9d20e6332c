//! Key bindings of the foreground loop.

use vstd::prelude::*;

verus! {

/// A key press as the terminal reports it.
#[derive(Clone, Copy, Debug, PartialEq, Eq, Structural)]
pub enum Key {
    Up,
    Down,
    Char(char),
    Other,
}

/// What a key press asks for.
#[derive(Clone, Copy, Debug, PartialEq, Eq, Structural)]
pub enum Command {
    MoveDown,
    MoveUp,
    Quit,
    Ignore,
}

/// The command bound to `key`: the arrow keys and `j` / `k` move the
/// selection, `q` quits, and every other key does nothing.
pub open spec fn command_for(key: Key) -> Command {
    match key {
        Key::Down => Command::MoveDown,
        Key::Up => Command::MoveUp,
        Key::Char(c) => if c == 'j' {
            Command::MoveDown
        } else if c == 'k' {
            Command::MoveUp
        } else if c == 'q' {
            Command::Quit
        } else {
            Command::Ignore
        },
        Key::Other => Command::Ignore,
    }
}

/// Looks up the command bound to `key`.
pub fn command(key: Key) -> (r: Command)
    ensures
        r == command_for(key),
{
    match key {
        Key::Down => Command::MoveDown,
        Key::Up => Command::MoveUp,
        Key::Char(c) => {
            if c == 'j' {
                Command::MoveDown
            } else if c == 'k' {
                Command::MoveUp
            } else if c == 'q' {
                Command::Quit
            } else {
                Command::Ignore
            }
        },
        Key::Other => Command::Ignore,
    }
}

} // verus!
