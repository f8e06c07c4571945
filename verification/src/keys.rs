//! Key presses as plain values.
use vstd::prelude::*;

verus! {

/// The control modifier bit of [`Key::modifiers`].
pub const CONTROL: u8 = 0x02;
/// The shift modifier bit of [`Key::modifiers`].
pub const SHIFT: u8 = 0x01;

/// Which key was pressed.
#[derive(Debug, Clone, Copy, PartialEq, Eq, Structural)]
pub enum KeyCode {
    Char(char),
    Enter,
    Esc,
    Up,
    Down,
    Left,
    Right,
    F(u8),
    Other,
}

/// A key press: the key and the bits of the modifiers held with it.
#[derive(Debug, Clone, Copy, PartialEq, Eq, Structural)]
pub struct Key {
    pub code: KeyCode,
    pub modifiers: u8,
}

impl Key {
    pub fn new(code: KeyCode, modifiers: u8) -> (r: Key)
        ensures
            r.code == code,
            r.modifiers == modifiers,
    {
        Key { code, modifiers }
    }

    /// Whether exactly the control modifier is held.
    pub open spec fn is_ctrl_spec(self) -> bool {
        self.modifiers == CONTROL
    }

    /// Whether the control modifier is among those held.
    pub open spec fn has_ctrl_spec(self) -> bool {
        self.modifiers & CONTROL != 0
    }

    pub fn has_ctrl(&self) -> (r: bool)
        ensures
            r == self.has_ctrl_spec(),
    {
        self.modifiers & CONTROL != 0
    }
}

} // verus!
