use vstd::prelude::*;

use crate::key_code::KeyCode;

verus! {

/// The set of modifier keys held together with a key: Ctrl, Alt, Shift and
/// Super (also called command or windows key).
#[derive(Debug, Clone, Copy, PartialEq, Eq, Hash, Structural)]
pub struct KeyModifiers {
    pub ctrl: bool,
    pub alt: bool,
    pub shift: bool,
    pub super_: bool,
}

impl KeyModifiers {
    /// The empty modifier set.
    pub fn empty() -> (r: KeyModifiers)
        ensures
            r == KeyModifiers::none(),
    {
        KeyModifiers { ctrl: false, alt: false, shift: false, super_: false }
    }

    /// The empty modifier set, as a specification value.
    pub open spec fn none() -> KeyModifiers {
        KeyModifiers { ctrl: false, alt: false, shift: false, super_: false }
    }

    /// Whether no modifier is set.
    pub fn is_empty(&self) -> (r: bool)
        ensures
            r == (*self == KeyModifiers::none()),
    {
        !self.ctrl && !self.alt && !self.shift && !self.super_
    }

    /// The union of two modifier sets, as a specification value.
    pub open spec fn spec_union(self, other: KeyModifiers) -> KeyModifiers {
        KeyModifiers {
            ctrl: self.ctrl || other.ctrl,
            alt: self.alt || other.alt,
            shift: self.shift || other.shift,
            super_: self.super_ || other.super_,
        }
    }

    /// The union of two modifier sets.
    pub fn union(self, other: KeyModifiers) -> (r: KeyModifiers)
        ensures
            r == self.spec_union(other),
    {
        KeyModifiers {
            ctrl: self.ctrl || other.ctrl,
            alt: self.alt || other.alt,
            shift: self.shift || other.shift,
            super_: self.super_ || other.super_,
        }
    }

    /// The same modifier set with Shift set.
    pub fn with_shift(self) -> (r: KeyModifiers)
        ensures
            r == (KeyModifiers { shift: true, ..self }),
    {
        KeyModifiers { shift: true, ..self }
    }
}

impl Default for KeyModifiers {
    /// The default modifier set is empty.
    fn default() -> (r: KeyModifiers)
        ensures
            r == KeyModifiers::none(),
    {
        KeyModifiers { ctrl: false, alt: false, shift: false, super_: false }
    }
}

/// What happened to the key: under the enhanced keyboard protocol presses,
/// repeats and releases are reported separately; legacy terminals only ever
/// report presses.
#[derive(Debug, Clone, Copy, PartialEq, Eq, Hash, Structural)]
pub enum KeyEventKind {
    Press,
    Repeat,
    Release,
}

/// A raw key event as delivered by the terminal driver: a key code, the
/// modifiers held with it, and what happened to the key.
#[derive(Debug, Clone, Copy, PartialEq, Eq, Hash, Structural)]
pub struct KeyEvent {
    pub code: KeyCode,
    pub modifiers: KeyModifiers,
    pub kind: KeyEventKind,
}

impl KeyEvent {
    /// A press event for the given key code and modifiers.
    pub fn new(code: KeyCode, modifiers: KeyModifiers) -> (r: KeyEvent)
        ensures
            r == (KeyEvent { code, modifiers, kind: KeyEventKind::Press }),
    {
        KeyEvent { code, modifiers, kind: KeyEventKind::Press }
    }
}

/// The raw character of a key event that is a plain letter or character
/// press, with no modifier; the case of the character is kept as reported.
pub fn as_letter(key: KeyEvent) -> (r: Option<char>)
    ensures
        r == spec_as_letter(key),
{
    match key.code {
        KeyCode::Char(l) if key.modifiers.is_empty() => Some(l),
        _ => None,
    }
}

/// The character of a modifier-free character event, if any.
pub open spec fn spec_as_letter(key: KeyEvent) -> Option<char> {
    match key.code {
        KeyCode::Char(l) => if key.modifiers == KeyModifiers::none() {
            Some(l)
        } else {
            None
        },
        _ => None,
    }
}

} // verus!
