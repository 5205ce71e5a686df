//! Key presses as the pickers and editors read them, and the list navigation they share.
use vstd::prelude::*;

verus! {

/// The key of a key press.
#[derive(Debug, Clone, Copy, PartialEq, Eq, Structural)]
pub enum KeyCode {
    Char(char),
    Enter,
    Esc,
    Backspace,
    Tab,
    BackTab,
    Left,
    Right,
    Up,
    Down,
    PageUp,
    PageDown,
    Home,
    End,
    Delete,
    Other,
}

/// A key press: the key and the modifiers held with it.
#[derive(Debug, Clone, Copy, PartialEq, Eq, Structural)]
pub struct KeyInput {
    pub code: KeyCode,
    pub control: bool,
    pub alt: bool,
    pub shift: bool,
}

impl KeyInput {
    /// A key pressed without modifiers.
    pub fn plain(code: KeyCode) -> (r: Self)
        ensures
            r == (KeyInput { code, control: false, alt: false, shift: false }),
    {
        KeyInput { code, control: false, alt: false, shift: false }
    }

    /// A key pressed with Control.
    pub fn ctrl(code: KeyCode) -> (r: Self)
        ensures
            r == (KeyInput { code, control: true, alt: false, shift: false }),
    {
        KeyInput { code, control: true, alt: false, shift: false }
    }

    /// The character this press types into a text field: a character key held with neither
    /// Control nor Alt.
    pub open spec fn typed_char(self) -> Option<char> {
        match self.code {
            KeyCode::Char(c) => if !self.control && !self.alt {
                Some(c)
            } else {
                None
            },
            _ => None,
        }
    }

    pub fn typed(&self) -> (r: Option<char>)
        ensures
            r == self.typed_char(),
    {
        match self.code {
            KeyCode::Char(c) => if !self.control && !self.alt {
                Some(c)
            } else {
                None
            },
            _ => None,
        }
    }

    /// Control held with the character key `c`.
    pub open spec fn is_ctrl_char(self, c: char) -> bool {
        self.code == KeyCode::Char(c) && self.control
    }

    pub fn ctrl_char(&self, c: char) -> (r: bool)
        ensures
            r == self.is_ctrl_char(c),
    {
        match self.code {
            KeyCode::Char(d) => d == c && self.control,
            _ => false,
        }
    }
}

/// `n - k`, or 0 when that is negative.
pub open spec fn sat_sub(n: int, k: int) -> int {
    if n >= k {
        n - k
    } else {
        0
    }
}

/// The selection kept inside a list of `len` entries: the last entry when it ran past the end,
/// 0 for an empty list.
pub open spec fn clamp_index(selected: int, len: int) -> int {
    if len == 0 {
        0
    } else if selected < len - 1 {
        selected
    } else {
        len - 1
    }
}

/// Where a movement key takes the selection in a list of `len` entries; other keys leave it.
pub open spec fn move_index(selected: int, len: int, code: KeyCode) -> int {
    match code {
        KeyCode::Up => sat_sub(selected, 1),
        KeyCode::Down => if selected + 1 < len {
            selected + 1
        } else {
            selected
        },
        KeyCode::PageUp => sat_sub(selected, 10),
        KeyCode::PageDown => if len == 0 {
            0
        } else if selected + 10 < len - 1 {
            selected + 10
        } else {
            len - 1
        },
        KeyCode::Home => 0,
        KeyCode::End => sat_sub(len, 1),
        _ => selected,
    }
}

pub open spec fn is_movement(code: KeyCode) -> bool {
    code == KeyCode::Up || code == KeyCode::Down || code == KeyCode::PageUp || code
        == KeyCode::PageDown || code == KeyCode::Home || code == KeyCode::End
}

pub fn clamp_selection(selected: usize, len: usize) -> (r: usize)
    ensures
        r == clamp_index(selected as int, len as int),
{
    if len == 0 {
        0
    } else if selected < len - 1 {
        selected
    } else {
        len - 1
    }
}

pub fn move_selection(selected: usize, len: usize, code: KeyCode) -> (r: usize)
    ensures
        r == move_index(selected as int, len as int, code),
{
    match code {
        KeyCode::Up => selected.saturating_sub(1),
        KeyCode::Down => if selected < len && selected + 1 < len {
            selected + 1
        } else {
            selected
        },
        KeyCode::PageUp => selected.saturating_sub(10),
        KeyCode::PageDown => {
            if len == 0 {
                0
            } else if selected < len - 1 && len - 1 - selected > 10 {
                selected + 10
            } else {
                len - 1
            }
        },
        KeyCode::Home => 0,
        KeyCode::End => len.saturating_sub(1),
        _ => selected,
    }
}

} // verus!
