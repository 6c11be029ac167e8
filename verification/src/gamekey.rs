//! Keys as the game knows them, and what each of them means.

use vstd::prelude::*;

verus! {

/// A key of the keyboard, as far as the game tells keys apart.
#[derive(Clone, Copy, PartialEq, Eq, Structural, Debug)]
pub enum KeyCode {
    Up,
    Down,
    Left,
    Right,
    H,
    J,
    K,
    L,
    Y,
    U,
    B,
    N,
    NumPad1,
    NumPad2,
    NumPad3,
    NumPad4,
    NumPad5,
    NumPad6,
    NumPad7,
    NumPad8,
    NumPad9,
    Period,
    Space,
    Return,
    Escape,
    Other,
}

/// What the input source delivers, one event for each update cycle.
#[derive(Clone, Copy, PartialEq, Eq, Structural, Debug)]
pub enum InputEvent {
    /// The window was asked to close.
    AppQuit,
    /// A key went down.
    Press(KeyCode),
}

/// What a key means to the game.
#[derive(Clone, Copy, PartialEq, Eq, Structural, Debug)]
pub enum GameKey {
    Up,
    Down,
    Left,
    Right,
    UpLeft,
    UpRight,
    DownLeft,
    DownRight,
    Wait,
    Confirm,
    Cancel,
    Unmapped,
}

/// What `key` means to the game: the arrows, the `hjklyubn` keys and the
/// number pad move, Return confirms, Escape cancels.
pub open spec fn spec_from_keycode(key: KeyCode) -> GameKey {
    match key {
        KeyCode::K | KeyCode::NumPad8 | KeyCode::Up => GameKey::Up,
        KeyCode::J | KeyCode::NumPad2 | KeyCode::Down => GameKey::Down,
        KeyCode::H | KeyCode::NumPad4 | KeyCode::Left => GameKey::Left,
        KeyCode::L | KeyCode::NumPad6 | KeyCode::Right => GameKey::Right,
        KeyCode::Y | KeyCode::NumPad7 => GameKey::UpLeft,
        KeyCode::U | KeyCode::NumPad9 => GameKey::UpRight,
        KeyCode::B | KeyCode::NumPad1 => GameKey::DownLeft,
        KeyCode::N | KeyCode::NumPad3 => GameKey::DownRight,
        KeyCode::Period | KeyCode::NumPad5 | KeyCode::Space => GameKey::Wait,
        KeyCode::Return => GameKey::Confirm,
        KeyCode::Escape => GameKey::Cancel,
        KeyCode::Other => GameKey::Unmapped,
    }
}

/// What `key` means to the game.
pub fn from_keycode(key: KeyCode) -> (g: GameKey)
    ensures
        g == spec_from_keycode(key),
{
    match key {
        KeyCode::K | KeyCode::NumPad8 | KeyCode::Up => GameKey::Up,
        KeyCode::J | KeyCode::NumPad2 | KeyCode::Down => GameKey::Down,
        KeyCode::H | KeyCode::NumPad4 | KeyCode::Left => GameKey::Left,
        KeyCode::L | KeyCode::NumPad6 | KeyCode::Right => GameKey::Right,
        KeyCode::Y | KeyCode::NumPad7 => GameKey::UpLeft,
        KeyCode::U | KeyCode::NumPad9 => GameKey::UpRight,
        KeyCode::B | KeyCode::NumPad1 => GameKey::DownLeft,
        KeyCode::N | KeyCode::NumPad3 => GameKey::DownRight,
        KeyCode::Period | KeyCode::NumPad5 | KeyCode::Space => GameKey::Wait,
        KeyCode::Return => GameKey::Confirm,
        KeyCode::Escape => GameKey::Cancel,
        KeyCode::Other => GameKey::Unmapped,
    }
}

/// The step on the grid that `key` stands for, if it is one of the eight
/// directions. The rows of the grid count downwards.
pub open spec fn spec_direction(key: GameKey) -> Option<(int, int)> {
    match key {
        GameKey::Up => Some((0, -1)),
        GameKey::Down => Some((0, 1)),
        GameKey::Left => Some((-1, 0)),
        GameKey::Right => Some((1, 0)),
        GameKey::UpLeft => Some((-1, -1)),
        GameKey::UpRight => Some((1, -1)),
        GameKey::DownLeft => Some((-1, 1)),
        GameKey::DownRight => Some((1, 1)),
        _ => None,
    }
}

/// The step on the grid that `key` stands for, if it is one of the eight
/// directions.
pub fn direction(key: GameKey) -> (d: Option<(i32, i32)>)
    ensures
        d.is_some() == spec_direction(key).is_some(),
        d.is_some() ==> (d.unwrap().0 as int, d.unwrap().1 as int) == spec_direction(key).unwrap(),
{
    match key {
        GameKey::Up => Some((0, -1)),
        GameKey::Down => Some((0, 1)),
        GameKey::Left => Some((-1, 0)),
        GameKey::Right => Some((1, 0)),
        GameKey::UpLeft => Some((-1, -1)),
        GameKey::UpRight => Some((1, -1)),
        GameKey::DownLeft => Some((-1, 1)),
        GameKey::DownRight => Some((1, 1)),
        _ => None,
    }
}

/// The key that was pressed, given its meaning, if `input` is a key press.
pub open spec fn spec_pressed(input: Option<InputEvent>) -> Option<GameKey> {
    match input {
        Some(InputEvent::Press(key)) => Some(spec_from_keycode(key)),
        _ => None,
    }
}

/// The key that was pressed, given its meaning, if `input` is a key press.
pub fn pressed(input: Option<InputEvent>) -> (g: Option<GameKey>)
    ensures
        g == spec_pressed(input),
{
    match input {
        Some(InputEvent::Press(key)) => Some(from_keycode(key)),
        _ => None,
    }
}

} // verus!
