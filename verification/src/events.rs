use vstd::prelude::*;

use crate::geometry::Direction;

verus! {

/// A key on the keyboard, as far as the application tells keys apart.
#[derive(Clone, Copy, Debug, PartialEq, Eq, Structural)]
pub enum KeyCode {
    Char(char),
    Left,
    Right,
    Up,
    Down,
    Enter,
    Backspace,
    Esc,
    Tab,
    BackTab,
    Modifier,
    Other,
}

/// A key press or release, with the state of the shift key.
#[derive(Clone, Copy, Debug, PartialEq, Eq, Structural)]
pub struct KeyEvent {
    pub code: KeyCode,
    pub shift: bool,
    pub press: bool,
}

#[derive(Clone, Copy, Debug, PartialEq, Eq, Structural)]
pub enum MouseButton {
    Left,
    Right,
    Middle,
}

#[derive(Clone, Copy, Debug, PartialEq, Eq, Structural)]
pub enum MouseEventKind {
    Down(MouseButton),
    Up(MouseButton),
    Drag(MouseButton),
    Moved,
    ScrollDown,
    ScrollUp,
    ScrollLeft,
    ScrollRight,
}

/// A mouse action at a terminal cell.
#[derive(Clone, Copy, Debug, PartialEq, Eq, Structural)]
pub struct MouseEvent {
    pub kind: MouseEventKind,
    pub column: u16,
    pub row: u16,
}

/// An input event from the terminal.
#[derive(Clone, Copy, Debug, PartialEq, Eq, Structural)]
pub enum Event {
    Key(KeyEvent),
    Mouse(MouseEvent),
    Other,
}

impl From<KeyCode> for Direction {
    /// The up arrow moves up; every other key moves down.
    fn from(value: KeyCode) -> (d: Direction) {
        match value {
            KeyCode::Up => Direction::UP,
            _ => Direction::DOWN,
        }
    }
}

impl vstd::std_specs::convert::FromSpecImpl<KeyCode> for Direction {
    open spec fn obeys_from_spec() -> bool {
        true
    }

    open spec fn from_spec(v: KeyCode) -> Direction {
        if v == KeyCode::Up { Direction::UP } else { Direction::DOWN }
    }
}

impl From<MouseEventKind> for Direction {
    /// Scrolling up moves up; every other mouse action moves down.
    fn from(value: MouseEventKind) -> (d: Direction) {
        match value {
            MouseEventKind::ScrollUp => Direction::UP,
            _ => Direction::DOWN,
        }
    }
}

impl vstd::std_specs::convert::FromSpecImpl<MouseEventKind> for Direction {
    open spec fn obeys_from_spec() -> bool {
        true
    }

    open spec fn from_spec(v: MouseEventKind) -> Direction {
        if v == MouseEventKind::ScrollUp { Direction::UP } else { Direction::DOWN }
    }
}

} // verus!
