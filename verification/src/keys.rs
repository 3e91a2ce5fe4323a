//! Key and mouse input, as the screens read it.

use vstd::prelude::*;

verus! {

/// The key that was pressed.
#[derive(Debug, Clone, Copy, PartialEq, Eq, Structural)]
pub enum KeyCode {
    Char(char),
    Enter,
    Esc,
    Up,
    Down,
    Left,
    Right,
    Home,
    End,
    Backspace,
    Delete,
    Tab,
    /// Any key that no screen reacts to.
    Other,
}

/// Modifiers held while the key was pressed.
#[derive(Debug, Clone, Copy, PartialEq, Eq, Structural)]
pub struct KeyModifiers {
    pub shift: bool,
    pub control: bool,
}

impl KeyModifiers {
    /// No modifier.
    pub fn none() -> (r: KeyModifiers)
        ensures
            r == (KeyModifiers { shift: false, control: false }),
    {
        KeyModifiers { shift: false, control: false }
    }

    /// Shift alone.
    pub fn shift() -> (r: KeyModifiers)
        ensures
            r == (KeyModifiers { shift: true, control: false }),
    {
        KeyModifiers { shift: true, control: false }
    }

    /// Control alone.
    pub fn control() -> (r: KeyModifiers)
        ensures
            r == (KeyModifiers { shift: false, control: true }),
    {
        KeyModifiers { shift: false, control: true }
    }
}

/// A key press.
#[derive(Debug, Clone, Copy, PartialEq, Eq, Structural)]
pub struct KeyEvent {
    pub code: KeyCode,
    pub modifiers: KeyModifiers,
}

impl KeyEvent {
    pub fn new(code: KeyCode, modifiers: KeyModifiers) -> (r: KeyEvent)
        ensures
            r == (KeyEvent { code, modifiers }),
    {
        KeyEvent { code, modifiers }
    }
}

/// A mouse event: where it happened and whether the left button went down.
#[derive(Debug, Clone, Copy, PartialEq, Eq, Structural)]
pub struct MouseEvent {
    pub column: u16,
    pub row: u16,
    pub left_down: bool,
}

/// The capital of an ASCII small letter; any other character unchanged.
pub open spec fn ascii_upper(c: char) -> char {
    if 'a' <= c <= 'z' {
        (c as u32 - 32) as char
    } else {
        c
    }
}

/// The key with Shift+letter written as the capital letter.
pub open spec fn shift_normalized(key: KeyEvent) -> KeyEvent {
    match key.code {
        KeyCode::Char(c) if key.modifiers.shift => KeyEvent {
            code: KeyCode::Char(ascii_upper(c)),
            ..key
        },
        _ => key,
    }
}

/// Some terminals report Shift+letter as the small letter with the Shift
/// modifier. Every shortcut expects the capital, so such a key is rewritten.
pub fn normalize_shift(key: KeyEvent) -> (r: KeyEvent)
    ensures
        r == shift_normalized(key),
{
    if key.modifiers.shift {
        if let KeyCode::Char(c) = key.code {
            if c >= 'a' && c <= 'z' {
                return KeyEvent {
                    code: KeyCode::Char(((c as u8) - 32u8) as char),
                    modifiers: key.modifiers,
                };
            }
        }
    }
    key
}

/// Normalizing a key twice is normalizing it once.
pub proof fn law_normalize_is_idempotent(key: KeyEvent)
    ensures
        shift_normalized(shift_normalized(key)) == shift_normalized(key),
{
}

} // verus!
