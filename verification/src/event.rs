//! The input events that the dispatch engine decides on, as plain values.

use vstd::prelude::*;

verus! {

/// The key of a key event, as far as the screens tell keys apart.
#[derive(Clone, Copy, Debug, PartialEq, Eq, Structural)]
pub enum KeyCode {
    /// A character key.
    Char(char),
    Enter,
    Backspace,
    Esc,
    /// Any other key.
    Other,
}

/// What happened to the key.
#[derive(Clone, Copy, Debug, PartialEq, Eq, Structural)]
pub enum KeyEventKind {
    Press,
    Repeat,
    Release,
}

/// The bit that the control key has in the modifier bits of a key event.
pub const CONTROL_BIT: u8 = 0b0000_0010;

/// A key event: the key, the modifier bits as the terminal layer gives
/// them, and what happened to the key.
#[derive(Clone, Copy, Debug, PartialEq, Eq, Structural)]
pub struct KeyEvent {
    pub code: KeyCode,
    pub modifiers: u8,
    pub kind: KeyEventKind,
}

/// An input event.
#[derive(Clone, Copy, Debug, PartialEq, Eq, Structural)]
pub enum Event {
    FocusGained,
    FocusLost,
    Key(KeyEvent),
    Mouse,
    Paste,
    /// The terminal was resized to the given columns and rows.
    Resize(u16, u16),
}

/// Whether the control bit is set in the modifier bits.
pub open spec fn control_held(modifiers: u8) -> bool {
    modifiers & CONTROL_BIT == CONTROL_BIT
}

/// Calls `KeyModifiers::contains` of crossterm with `KeyModifiers::CONTROL`
/// on the modifiers made of exactly the given bits. Taken on trust, not
/// proved: the answer is `true` exactly where every bit of `CONTROL` (the
/// one bit `0b10`) is set in `modifiers`.
#[verifier::external_body]
fn modifiers_contain_control(modifiers: u8) -> (held: bool)
    ensures
        held == control_held(modifiers),
{
    crossterm::event::KeyModifiers::from_bits_retain(modifiers).contains(
        crossterm::event::KeyModifiers::CONTROL,
    )
}

impl KeyEvent {
    /// A press of `code` with the given modifier bits.
    pub fn new(code: KeyCode, modifiers: u8) -> (event: KeyEvent)
        ensures
            event == (KeyEvent { code, modifiers, kind: KeyEventKind::Press }),
    {
        KeyEvent { code, modifiers, kind: KeyEventKind::Press }
    }

    /// Whether the key was pressed (and not repeated or released).
    pub fn is_press(&self) -> (press: bool)
        ensures
            press == (self.kind == KeyEventKind::Press),
    {
        match self.kind {
            KeyEventKind::Press => true,
            _ => false,
        }
    }

    /// Whether the control key was held.
    pub fn has_control(&self) -> (held: bool)
        ensures
            held == control_held(self.modifiers),
    {
        modifiers_contain_control(self.modifiers)
    }
}

} // verus!
