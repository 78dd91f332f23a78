//! The keyboard vocabulary the logic of this crate reads: which key, which modifiers.

use vstd::prelude::*;

verus! {

/// A key that has a name rather than a character.
#[derive(Clone, Copy, Debug, PartialEq, Eq, Structural)]
pub enum NamedKey {
    ArrowUp,
    ArrowDown,
    ArrowLeft,
    ArrowRight,
    Enter,
    Escape,
    Home,
    End,
    Space,
    Tab,
    Backspace,
    Delete,
    PageUp,
    PageDown,
    /// A function key, `F1` upwards.
    F(u8),
    /// Any other named key, by a number the platform layer gives it.
    Other(u32),
}

/// A key as the platform reports it: a named key, or the character it types.
#[derive(Clone, Copy, Debug, PartialEq, Eq, Structural)]
pub enum Key {
    Named(NamedKey),
    Char(char),
}

/// The modifier keys held at one moment, as the platform reads them.
#[derive(Clone, Copy, Debug, PartialEq, Eq, Structural)]
pub struct ModifiersState {
    pub is_shift: bool,
    pub is_ctrl: bool,
    pub is_alt: bool,
    pub is_meta: bool,
}

/// No modifier held.
pub open spec fn no_modifiers() -> ModifiersState {
    ModifiersState { is_shift: false, is_ctrl: false, is_alt: false, is_meta: false }
}

impl Default for ModifiersState {
    fn default() -> (r: Self)
        ensures
            r == no_modifiers(),
    {
        ModifiersState { is_shift: false, is_ctrl: false, is_alt: false, is_meta: false }
    }
}

/// A pointer button.
#[derive(Clone, Copy, Debug, PartialEq, Eq, Structural)]
pub enum PointerButton {
    Primary,
    Secondary,
    Auxiliary,
}

/// What the state kept here reads of a platform event: the keys, the modifiers, the buttons and whether the window still has focus. Every other event is [`Event::Other`].
#[derive(Clone, Copy, Debug, PartialEq, Eq, Structural)]
pub enum Event {
    ModifiersChanged { modifiers: ModifiersState },
    KeyPressed { key: Key, modifiers: ModifiersState },
    KeyReleased { key: Key, modifiers: ModifiersState },
    FocusChanged { is_focused: bool },
    PointerPressed { button: PointerButton },
    PointerReleased { button: PointerButton },
    Other,
}

/// The number a named key is filed under.
pub open spec fn named_code(named: NamedKey) -> u64 {
    match named {
        NamedKey::ArrowUp => 0,
        NamedKey::ArrowDown => 1,
        NamedKey::ArrowLeft => 2,
        NamedKey::ArrowRight => 3,
        NamedKey::Enter => 4,
        NamedKey::Escape => 5,
        NamedKey::Home => 6,
        NamedKey::End => 7,
        NamedKey::Space => 8,
        NamedKey::Tab => 9,
        NamedKey::Backspace => 10,
        NamedKey::Delete => 11,
        NamedKey::PageUp => 12,
        NamedKey::PageDown => 13,
        NamedKey::F(n) => (256 + n) as u64,
        NamedKey::Other(n) => (512 + n) as u64,
    }
}

/// The number a key is filed under in a set of keys: a character by its scalar value, a named key above every scalar value.
pub open spec fn key_code(key: Key) -> u64 {
    match key {
        Key::Char(c) => c as u64,
        Key::Named(named) => (0x0011_0000u64 + named_code(named)) as u64,
    }
}

/// Computes [`key_code`].
pub fn code_of(key: &Key) -> (r: u64)
    ensures
        r == key_code(*key),
{
    match key {
        Key::Char(c) => *c as u64,
        Key::Named(named) => {
            let n: u64 = match named {
                NamedKey::ArrowUp => 0,
                NamedKey::ArrowDown => 1,
                NamedKey::ArrowLeft => 2,
                NamedKey::ArrowRight => 3,
                NamedKey::Enter => 4,
                NamedKey::Escape => 5,
                NamedKey::Home => 6,
                NamedKey::End => 7,
                NamedKey::Space => 8,
                NamedKey::Tab => 9,
                NamedKey::Backspace => 10,
                NamedKey::Delete => 11,
                NamedKey::PageUp => 12,
                NamedKey::PageDown => 13,
                NamedKey::F(f) => 256 + *f as u64,
                NamedKey::Other(o) => 512 + *o as u64,
            };
            0x0011_0000u64 + n
        },
    }
}

/// Two keys share a code only when they are the same key, so a set of codes is a set of keys.
pub proof fn lemma_key_code_injective(a: Key, b: Key)
    ensures
        key_code(a) == key_code(b) <==> a == b,
{
    if key_code(a) == key_code(b) {
        match a {
            Key::Char(x) => match b {
                Key::Char(y) => {
                    assert(x as u64 == y as u64);
                    assert(x == y);
                },
                Key::Named(_) => {},
            },
            Key::Named(_) => {},
        }
    }
}

} // verus!
