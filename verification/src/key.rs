//! Key events, as a prompt receives them.

use vstd::prelude::*;

verus! {

/// One key event.
#[derive(Clone, Copy, Debug, PartialEq, Eq, Structural)]
pub enum Key {
    /// A printable character other than the space.
    Char(char),
    /// The Enter key.
    Enter,
    /// The Backspace key.
    Backspace,
    /// The Delete key.
    Delete,
    /// The space bar.
    Space,
    /// The Tab key.
    Tab,
    /// The Escape key.
    Escape,
    /// Ctrl-C.
    Interrupt,
    /// The arrow up.
    Up,
    /// The arrow down.
    Down,
    /// The arrow left.
    Left,
    /// The arrow right.
    Right,
    /// The Home key.
    Home,
    /// The End key.
    End,
    /// Any other key.
    Unknown,
}

/// The key that the character `c` stands for when a terminal delivers it.
pub open spec fn key_of(c: char) -> Key {
    if c == '\r' || c == '\n' {
        Key::Enter
    } else if c == '\t' {
        Key::Tab
    } else if c == ' ' {
        Key::Space
    } else if c == '\u{7f}' || c == '\u{8}' {
        Key::Backspace
    } else if c == '\u{1b}' {
        Key::Escape
    } else if c == '\u{3}' {
        Key::Interrupt
    } else if (c as int) < 32 {
        Key::Unknown
    } else {
        Key::Char(c)
    }
}

impl Key {
    /// The character that the key types into a line of text, if it types one.
    pub open spec fn typed(self) -> Option<char> {
        match self {
            Key::Char(c) => Some(c),
            Key::Space => Some(' '),
            _ => None,
        }
    }

    /// Whether the key cancels a prompt: Escape and Ctrl-C do.
    pub open spec fn cancels(self) -> bool {
        self == Key::Escape || self == Key::Interrupt
    }

    /// Whether the key is the space bar, however it was delivered.
    pub open spec fn is_space(self) -> bool {
        self == Key::Space || self == Key::Char(' ')
    }

    /// The key that the character `c` stands for: the control characters
    /// that a terminal sends for Enter, Tab, Backspace, Escape and Ctrl-C
    /// become those keys, the space becomes `Space`, any other control
    /// character is `Unknown`, and every other character is itself.
    pub fn from_char(c: char) -> (r: Key)
        ensures
            r == key_of(c),
    {
        if c == '\r' || c == '\n' {
            Key::Enter
        } else if c == '\t' {
            Key::Tab
        } else if c == ' ' {
            Key::Space
        } else if c == '\u{7f}' || c == '\u{8}' {
            Key::Backspace
        } else if c == '\u{1b}' {
            Key::Escape
        } else if c == '\u{3}' {
            Key::Interrupt
        } else if ' ' > c {
            Key::Unknown
        } else {
            Key::Char(c)
        }
    }

    /// The character that the key types into a line of text, if it types one.
    pub fn typed_char(&self) -> (r: Option<char>)
        ensures
            r == self.typed(),
    {
        match self {
            Key::Char(c) => Some(*c),
            Key::Space => Some(' '),
            _ => None,
        }
    }

    /// Whether the key cancels a prompt.
    pub fn is_cancel(&self) -> (r: bool)
        ensures
            r == self.cancels(),
    {
        match self {
            Key::Escape => true,
            Key::Interrupt => true,
            _ => false,
        }
    }

    /// Whether the key is the space bar, however it was delivered.
    pub fn is_space_bar(&self) -> (r: bool)
        ensures
            r == self.is_space(),
    {
        match self {
            Key::Space => true,
            Key::Char(c) => *c == ' ',
            _ => false,
        }
    }
}

} // verus!
