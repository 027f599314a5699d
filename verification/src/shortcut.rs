use vstd::prelude::*;

verus! {

/// A keyboard shortcut: a set of modifier keys plus one key.
/// Pure value type; the engine only stores and compares it.
#[derive(Debug, Clone, Copy, PartialEq, Eq, Structural)]
pub struct Shortcut {
    pub mods: Modifiers,
    pub key: Key,
}

/// The modifier keys of a shortcut.
#[derive(Debug, Clone, Copy, PartialEq, Eq, Structural, Default)]
pub struct Modifiers {
    pub ctrl: bool,
    pub alt: bool,
    pub shift: bool,
    pub meta: bool,
}

/// The non-modifier key of a shortcut: a printable character, Enter, Escape,
/// or a function key by index.
#[derive(Debug, Clone, Copy, PartialEq, Eq, Structural)]
pub enum Key {
    Char(char),
    Enter,
    Escape,
    F(u8),
}

impl DeepView for Shortcut {
    type V = Shortcut;

    open spec fn deep_view(&self) -> Shortcut {
        *self
    }
}

} // verus!
