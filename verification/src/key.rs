//! Key presses, independent of the terminal backend that reports them.

use vstd::prelude::*;

verus! {

/// What was pressed, without its modifiers.
#[derive(Clone, Copy, Debug, PartialEq, Eq, Structural, Hash)]
pub enum Key {
    /// A key that types a character.
    Char(char),
    /// A function key, by its number.
    F(u8),
    Backspace,
    Enter,
    Left,
    Right,
    Up,
    Down,
    Tab,
    Delete,
    Home,
    End,
    PageUp,
    PageDown,
    Esc,
    Copy,
    Cut,
    Paste,
    MouseScrollDown,
    MouseScrollUp,
    /// No key at all: every handler ignores it.
    Null,
}

/// A key press with its modifiers.
#[derive(Clone, Copy, Debug, PartialEq, Eq, Structural, Hash)]
pub struct Input {
    pub key: Key,
    pub ctrl: bool,
    pub alt: bool,
    pub shift: bool,
}

impl Input {
    /// The press of the key `c` without Ctrl, whatever the other modifiers.
    pub open spec fn is_bare(self, c: char) -> bool {
        self.key == Key::Char(c) && !self.ctrl
    }

    /// The press that types `c` into a text: a character key without Ctrl and without Alt.
    pub open spec fn types(self, c: char) -> bool {
        self.key == Key::Char(c) && !self.ctrl && !self.alt
    }
}

impl Default for Input {
    /// The press of no key.
    fn default() -> (input: Self)
        ensures
            input == (Input { key: Key::Null, ctrl: false, alt: false, shift: false }),
    {
        Input { key: Key::Null, ctrl: false, alt: false, shift: false }
    }
}

} // verus!
