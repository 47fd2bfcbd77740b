use vstd::prelude::*;

verus! {

/// A media key, reported only under the enhanced keyboard protocol.
#[derive(Debug, Clone, Copy, PartialEq, Eq, Hash, Structural)]
pub enum MediaKeyCode {
    Play,
    Pause,
    PlayPause,
    Reverse,
    Stop,
    FastForward,
    Rewind,
    TrackNext,
    TrackPrevious,
    Record,
    LowerVolume,
    RaiseVolume,
    MuteVolume,
}

/// A modifier key pressed on its own, reported only under the enhanced
/// keyboard protocol.
#[derive(Debug, Clone, Copy, PartialEq, Eq, Hash, Structural)]
pub enum ModifierKeyCode {
    LeftShift,
    LeftControl,
    LeftAlt,
    LeftSuper,
    LeftHyper,
    LeftMeta,
    RightShift,
    RightControl,
    RightAlt,
    RightSuper,
    RightHyper,
    RightMeta,
    IsoLevel3Shift,
    IsoLevel5Shift,
}

/// The identity of a non-modifier key: either a named key or a character key.
#[derive(Debug, Clone, Copy, PartialEq, Eq, Hash, Structural)]
pub enum KeyCode {
    Backspace,
    Enter,
    Left,
    Right,
    Up,
    Down,
    Home,
    End,
    PageUp,
    PageDown,
    Tab,
    BackTab,
    Delete,
    Insert,
    F(u8),
    Char(char),
    Null,
    Esc,
    CapsLock,
    ScrollLock,
    NumLock,
    PrintScreen,
    Pause,
    Menu,
    KeypadBegin,
    Media(MediaKeyCode),
    Modifier(ModifierKeyCode),
}

/// Position of a media key in the fixed total order over media keys.
pub open spec fn media_rank(m: MediaKeyCode) -> int {
    match m {
        MediaKeyCode::Play => 0,
        MediaKeyCode::Pause => 1,
        MediaKeyCode::PlayPause => 2,
        MediaKeyCode::Reverse => 3,
        MediaKeyCode::Stop => 4,
        MediaKeyCode::FastForward => 5,
        MediaKeyCode::Rewind => 6,
        MediaKeyCode::TrackNext => 7,
        MediaKeyCode::TrackPrevious => 8,
        MediaKeyCode::Record => 9,
        MediaKeyCode::LowerVolume => 10,
        MediaKeyCode::RaiseVolume => 11,
        MediaKeyCode::MuteVolume => 12,
    }
}

/// Position of a standalone modifier key in the fixed total order.
pub open spec fn modifier_rank(m: ModifierKeyCode) -> int {
    match m {
        ModifierKeyCode::LeftShift => 0,
        ModifierKeyCode::LeftControl => 1,
        ModifierKeyCode::LeftAlt => 2,
        ModifierKeyCode::LeftSuper => 3,
        ModifierKeyCode::LeftHyper => 4,
        ModifierKeyCode::LeftMeta => 5,
        ModifierKeyCode::RightShift => 6,
        ModifierKeyCode::RightControl => 7,
        ModifierKeyCode::RightAlt => 8,
        ModifierKeyCode::RightSuper => 9,
        ModifierKeyCode::RightHyper => 10,
        ModifierKeyCode::RightMeta => 11,
        ModifierKeyCode::IsoLevel3Shift => 12,
        ModifierKeyCode::IsoLevel5Shift => 13,
    }
}

/// Position of a key code's variant in the fixed total order over key codes;
/// keys of the same variant are further ordered by their payload.
pub open spec fn code_rank(c: KeyCode) -> int {
    match c {
        KeyCode::Backspace => 0,
        KeyCode::Enter => 1,
        KeyCode::Left => 2,
        KeyCode::Right => 3,
        KeyCode::Up => 4,
        KeyCode::Down => 5,
        KeyCode::Home => 6,
        KeyCode::End => 7,
        KeyCode::PageUp => 8,
        KeyCode::PageDown => 9,
        KeyCode::Tab => 10,
        KeyCode::BackTab => 11,
        KeyCode::Delete => 12,
        KeyCode::Insert => 13,
        KeyCode::F(_) => 14,
        KeyCode::Char(_) => 15,
        KeyCode::Null => 16,
        KeyCode::Esc => 17,
        KeyCode::CapsLock => 18,
        KeyCode::ScrollLock => 19,
        KeyCode::NumLock => 20,
        KeyCode::PrintScreen => 21,
        KeyCode::Pause => 22,
        KeyCode::Menu => 23,
        KeyCode::KeypadBegin => 24,
        KeyCode::Media(_) => 25,
        KeyCode::Modifier(_) => 26,
    }
}

/// The fixed total order over key codes: named keys in declaration order,
/// then function keys by number, then character keys by code point.
pub open spec fn code_le(a: KeyCode, b: KeyCode) -> bool {
    if code_rank(a) != code_rank(b) {
        code_rank(a) < code_rank(b)
    } else {
        match (a, b) {
            (KeyCode::F(x), KeyCode::F(y)) => x <= y,
            (KeyCode::Char(x), KeyCode::Char(y)) => x <= y,
            (KeyCode::Media(x), KeyCode::Media(y)) => media_rank(x) <= media_rank(y),
            (KeyCode::Modifier(x), KeyCode::Modifier(y)) => modifier_rank(x) <= modifier_rank(y),
            _ => true,
        }
    }
}

/// The order over key codes decides every pair, both ways only for equal codes.
pub proof fn lemma_code_le_total(a: KeyCode, b: KeyCode)
    ensures
        code_le(a, b) || code_le(b, a),
        code_le(a, b) && code_le(b, a) ==> a == b,
        code_le(a, a),
{
}

fn media_rank_of(m: &MediaKeyCode) -> (r: u8)
    ensures
        r as int == media_rank(*m),
{
    match m {
        MediaKeyCode::Play => 0,
        MediaKeyCode::Pause => 1,
        MediaKeyCode::PlayPause => 2,
        MediaKeyCode::Reverse => 3,
        MediaKeyCode::Stop => 4,
        MediaKeyCode::FastForward => 5,
        MediaKeyCode::Rewind => 6,
        MediaKeyCode::TrackNext => 7,
        MediaKeyCode::TrackPrevious => 8,
        MediaKeyCode::Record => 9,
        MediaKeyCode::LowerVolume => 10,
        MediaKeyCode::RaiseVolume => 11,
        MediaKeyCode::MuteVolume => 12,
    }
}

fn modifier_rank_of(m: &ModifierKeyCode) -> (r: u8)
    ensures
        r as int == modifier_rank(*m),
{
    match m {
        ModifierKeyCode::LeftShift => 0,
        ModifierKeyCode::LeftControl => 1,
        ModifierKeyCode::LeftAlt => 2,
        ModifierKeyCode::LeftSuper => 3,
        ModifierKeyCode::LeftHyper => 4,
        ModifierKeyCode::LeftMeta => 5,
        ModifierKeyCode::RightShift => 6,
        ModifierKeyCode::RightControl => 7,
        ModifierKeyCode::RightAlt => 8,
        ModifierKeyCode::RightSuper => 9,
        ModifierKeyCode::RightHyper => 10,
        ModifierKeyCode::RightMeta => 11,
        ModifierKeyCode::IsoLevel3Shift => 12,
        ModifierKeyCode::IsoLevel5Shift => 13,
    }
}

fn code_rank_of(c: &KeyCode) -> (r: u8)
    ensures
        r as int == code_rank(*c),
{
    match c {
        KeyCode::Backspace => 0,
        KeyCode::Enter => 1,
        KeyCode::Left => 2,
        KeyCode::Right => 3,
        KeyCode::Up => 4,
        KeyCode::Down => 5,
        KeyCode::Home => 6,
        KeyCode::End => 7,
        KeyCode::PageUp => 8,
        KeyCode::PageDown => 9,
        KeyCode::Tab => 10,
        KeyCode::BackTab => 11,
        KeyCode::Delete => 12,
        KeyCode::Insert => 13,
        KeyCode::F(_) => 14,
        KeyCode::Char(_) => 15,
        KeyCode::Null => 16,
        KeyCode::Esc => 17,
        KeyCode::CapsLock => 18,
        KeyCode::ScrollLock => 19,
        KeyCode::NumLock => 20,
        KeyCode::PrintScreen => 21,
        KeyCode::Pause => 22,
        KeyCode::Menu => 23,
        KeyCode::KeypadBegin => 24,
        KeyCode::Media(_) => 25,
        KeyCode::Modifier(_) => 26,
    }
}

/// Decide the fixed total order between two key codes.
pub(crate) fn key_code_le(a: &KeyCode, b: &KeyCode) -> (r: bool)
    ensures
        r == code_le(*a, *b),
{
    let ra = code_rank_of(a);
    let rb = code_rank_of(b);
    if ra != rb {
        ra < rb
    } else {
        match (a, b) {
            (KeyCode::F(x), KeyCode::F(y)) => x <= y,
            (KeyCode::Char(x), KeyCode::Char(y)) => x <= y,
            (KeyCode::Media(x), KeyCode::Media(y)) => media_rank_of(x) <= media_rank_of(y),
            (KeyCode::Modifier(x), KeyCode::Modifier(y)) => modifier_rank_of(x) <= modifier_rank_of(
                y,
            ),
            _ => true,
        }
    }
}

} // verus!
