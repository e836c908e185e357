//! Key presses.
use vstd::prelude::*;
use crate::text::{push_char, shortened, without_last_char};

verus! {

/// Which key was pressed.
#[derive(Debug, Clone, Copy, PartialEq, Eq, Structural)]
pub enum KeyCode {
    Char(char),
    Enter,
    Esc,
    Tab,
    BackTab,
    Backspace,
    Delete,
    Up,
    Down,
    Left,
    Right,
    Home,
    End,
    PageUp,
    PageDown,
    /// Any key that nothing is bound to.
    Other,
}

/// One key press.
#[derive(Debug, Clone, Copy, PartialEq, Eq, Structural)]
pub struct KeyEvent {
    pub code: KeyCode,
    /// Control was held.
    pub ctrl: bool,
}

/// A text field after a key: backspace takes the last character away, a
/// character is added, anything else leaves it.
pub open spec fn typed(text: Seq<char>, code: KeyCode) -> Seq<char> {
    match code {
        KeyCode::Backspace => shortened(text),
        KeyCode::Char(c) => text.push(c),
        _ => text,
    }
}

/// Types a key into a text field.
pub fn type_key(text: &mut String, code: KeyCode)
    ensures
        final(text)@ == typed(old(text)@, code),
{
    match code {
        KeyCode::Backspace => {
            let s = without_last_char(text.as_str());
            *text = s;
        },
        KeyCode::Char(c) => {
            push_char(text, c);
        },
        _ => {},
    }
}

} // verus!
