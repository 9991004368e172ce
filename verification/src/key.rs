//! Key presses.

use vstd::prelude::*;

verus! {

#[derive(Clone, Copy, PartialEq, Eq, Debug, Structural)]
pub enum KeyCode {
    Char(char),
    Enter,
    Esc,
    Tab,
    BackTab,
    Backspace,
    Delete,
    Left,
    Right,
    Up,
    Down,
    Home,
    End,
    /// A key that nothing here is bound to.
    Other,
}

#[derive(Clone, Copy, PartialEq, Eq, Debug, Structural)]
pub struct KeyModifiers {
    pub shift: bool,
    pub control: bool,
    pub alt: bool,
}

#[derive(Clone, Copy, PartialEq, Eq, Debug, Structural)]
pub struct KeyEvent {
    pub code: KeyCode,
    pub modifiers: KeyModifiers,
}

impl KeyEvent {
    /// The key pressed on its own.
    pub fn plain(code: KeyCode) -> (key: KeyEvent)
        ensures
            key.code == code,
            !key.modifiers.shift && !key.modifiers.control && !key.modifiers.alt,
    {
        KeyEvent { code, modifiers: KeyModifiers { shift: false, control: false, alt: false } }
    }

    /// The key pressed together with shift.
    pub fn with_shift(code: KeyCode) -> (key: KeyEvent)
        ensures
            key.code == code,
            key.modifiers.shift && !key.modifiers.control && !key.modifiers.alt,
    {
        KeyEvent { code, modifiers: KeyModifiers { shift: true, control: false, alt: false } }
    }

    /// The key pressed together with control.
    pub fn with_control(code: KeyCode) -> (key: KeyEvent)
        ensures
            key.code == code,
            !key.modifiers.shift && key.modifiers.control && !key.modifiers.alt,
    {
        KeyEvent { code, modifiers: KeyModifiers { shift: false, control: true, alt: false } }
    }

    /// Held down together with the control key.
    pub open spec fn chord(self, c: char) -> bool {
        self.code == KeyCode::Char(c) && self.modifiers.control
    }

    pub fn is_chord(&self, c: char) -> (r: bool)
        ensures
            r == self.chord(c),
    {
        self.code == KeyCode::Char(c) && self.modifiers.control
    }

    /// The character that the key types, if it types one: a chord does not.
    pub open spec fn types(self) -> Option<char> {
        match self.code {
            KeyCode::Char(c) => if self.modifiers.control || self.modifiers.alt {
                None
            } else {
                Some(c)
            },
            _ => None,
        }
    }

    pub fn typed(&self) -> (r: Option<char>)
        ensures
            r == self.types(),
    {
        match self.code {
            KeyCode::Char(c) => if self.modifiers.control || self.modifiers.alt {
                None
            } else {
                Some(c)
            },
            _ => None,
        }
    }

    /// Enter held down together with another key: a line break, where plain enter
    /// would submit.
    pub open spec fn breaks_line(self) -> bool {
        self.code == KeyCode::Enter && (self.modifiers.shift || self.modifiers.alt
            || self.modifiers.control)
    }
}

pub fn is_newline_key(key: &KeyEvent) -> (r: bool)
    ensures
        r == key.breaks_line(),
{
    key.code == KeyCode::Enter && (key.modifiers.shift || key.modifiers.alt
        || key.modifiers.control)
}

}
