//! Key presses, as the terminal reports them.

use vstd::prelude::*;

verus! {

/// Which key.  Keys that nothing here reacts to are `Other`.
#[derive(Clone, Copy, Debug, PartialEq, Eq, Structural)]
pub enum KeyCode {
    Char(char),
    Enter,
    Esc,
    Backspace,
    Delete,
    Tab,
    BackTab,
    Up,
    Down,
    Left,
    Right,
    Home,
    End,
    PageUp,
    PageDown,
    Other,
}

/// Which modifiers were held down, as the bits that terminals use: 1 for shift, 2 for control, 4
/// for alt, 8 to 32 for super, hyper and meta.
#[derive(Clone, Copy, Debug, PartialEq, Eq, Structural)]
pub struct KeyModifiers {
    pub bits: u8,
}

impl KeyModifiers {
    /// No modifier.
    pub fn none() -> (r: Self)
        ensures
            r.bits == 0,
    {
        KeyModifiers { bits: 0 }
    }

    /// The control key alone.
    pub fn control() -> (r: Self)
        ensures
            r.bits == 2,
    {
        KeyModifiers { bits: 2 }
    }

    /// The control key is among the modifiers.
    pub open spec fn has_control(self) -> bool {
        (self.bits / 2) % 2 == 1
    }

    /// Whether the control key is among the modifiers.
    pub fn contains_control(self) -> (r: bool)
        ensures
            r == self.has_control(),
    {
        (self.bits / 2) % 2 == 1
    }
}

/// A key press.
#[derive(Clone, Copy, Debug, PartialEq, Eq, Structural)]
pub struct KeyEvent {
    pub code: KeyCode,
    pub modifiers: KeyModifiers,
}

impl KeyEvent {
    pub fn new(code: KeyCode, modifiers: KeyModifiers) -> (r: Self)
        ensures
            r.code == code,
            r.modifiers == modifiers,
    {
        KeyEvent { code, modifiers }
    }
}

/// The control key is found among any modifiers: shift below it and the others above it change
/// nothing.
pub proof fn law_control_is_found(shift: u8, control: u8, above: u8)
    requires
        shift <= 1,
        control <= 1,
        above < 64,
    ensures
        (KeyModifiers { bits: (shift + 2 * control + 4 * above) as u8 }).has_control() <==> control == 1,
{
}

} // verus!
