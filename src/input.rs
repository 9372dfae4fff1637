use vstd::prelude::*;

verus! {

/// A raw input event, as handed to the router.
#[derive(Clone, Debug)]
pub enum Input {
    Key(KeyEvent),
    Paste(String),
    Resize(u16, u16),
}

#[derive(Clone, Copy, Debug, PartialEq, Eq, Structural)]
pub struct KeyEvent {
    pub code: KeyCode,
    pub modifiers: KeyModifiers,
    pub kind: KeyEventKind,
}

#[derive(Clone, Copy, Debug, PartialEq, Eq, Structural)]
pub enum KeyCode {
    Char(char),
    F(u8),
    Backspace,
    Enter,
    Left,
    Right,
    Up,
    Down,
    Tab,
    Delete,
    Home,
    End,
    PageUp,
    PageDown,
    Esc,
    Null,
}

#[derive(Clone, Copy, Debug, PartialEq, Eq, Structural)]
pub enum KeyEventKind {
    Press,
    Release,
    Repeat,
}

#[derive(Clone, Copy, Debug, PartialEq, Eq, Structural)]
pub struct KeyModifiers {
    pub ctrl: bool,
    pub alt: bool,
    pub shift: bool,
}

impl KeyModifiers {
    /// The modifiers held, one flag each.
    pub fn new(ctrl: bool, alt: bool, shift: bool) -> (r: Self)
        ensures
            r.ctrl == ctrl,
            r.alt == alt,
            r.shift == shift,
    {
        KeyModifiers { ctrl, alt, shift }
    }
}

impl Default for KeyModifiers {
    fn default() -> (r: Self)
        ensures
            !r.ctrl && !r.alt && !r.shift,
    {
        KeyModifiers { ctrl: false, alt: false, shift: false }
    }
}

impl KeyEvent {
    /// A key press with no modifier held.
    pub fn press(code: KeyCode) -> (r: Self)
        ensures
            r.code == code,
            r.modifiers == (KeyModifiers { ctrl: false, alt: false, shift: false }),
            r.kind == KeyEventKind::Press,
    {
        KeyEvent { code, modifiers: KeyModifiers::new(false, false, false), kind: KeyEventKind::Press }
    }
}

} // verus!
