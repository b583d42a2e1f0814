//! The event vocabulary shared by the editor: keys, buttons, modifiers.
//! Pointer positions are the host's business; an event here says what
//! happened, not where.

use vstd::prelude::*;

verus! {

/// Keyboard modifiers held with a key or button.
#[derive(Clone, Copy, Debug, PartialEq, Eq, Structural)]
pub struct Modifiers {
    pub ctrl: bool,
    pub shift: bool,
    pub alt: bool,
}

impl Modifiers {
    pub fn none() -> (r: Modifiers)
        ensures
            r == (Modifiers { ctrl: false, shift: false, alt: false }),
    {
        Modifiers { ctrl: false, shift: false, alt: false }
    }

    pub fn ctrl() -> (r: Modifiers)
        ensures
            r == (Modifiers { ctrl: true, shift: false, alt: false }),
    {
        Modifiers { ctrl: true, shift: false, alt: false }
    }

    pub fn shift() -> (r: Modifiers)
        ensures
            r == (Modifiers { ctrl: false, shift: true, alt: false }),
    {
        Modifiers { ctrl: false, shift: true, alt: false }
    }

    pub fn alt() -> (r: Modifiers)
        ensures
            r == (Modifiers { ctrl: false, shift: false, alt: true }),
    {
        Modifiers { ctrl: false, shift: false, alt: true }
    }

    /// Both sets held together.
    pub fn union(self, o: Modifiers) -> (r: Modifiers)
        ensures
            r == (Modifiers { ctrl: self.ctrl || o.ctrl, shift: self.shift || o.shift, alt: self.alt || o.alt }),
    {
        Modifiers { ctrl: self.ctrl || o.ctrl, shift: self.shift || o.shift, alt: self.alt || o.alt }
    }
}

#[derive(Clone, Copy, Debug, PartialEq, Eq, Structural)]
pub enum Key {
    Char(char),
    F(u8),
    Space,
    Tab,
    Enter,
    Escape,
    Delete,
    Backspace,
    Home,
    End,
    Left,
    Right,
    Up,
    Down,
}

#[derive(Clone, Copy, Debug, PartialEq, Eq, Structural)]
pub enum MouseButton {
    Left,
    Right,
    Middle,
}

#[derive(Clone, Copy, Debug, PartialEq, Eq, Structural)]
pub enum Event {
    Key { key: Key, pressed: bool, repeat: bool, mods: Modifiers },
    Button { button: MouseButton, pressed: bool, double: bool, mods: Modifiers },
    PointerMoved,
    Wheel { mods: Modifiers },
}

} // verus!
