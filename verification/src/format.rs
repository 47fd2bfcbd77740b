use vstd::prelude::*;

use crate::key_code::{KeyCode, MediaKeyCode, ModifierKeyCode};
use crate::key_combination::KeyCombination;
use crate::one_to_three::OneToThree;
use crate::text::{chars_of_str, chars_to_string, lower_chars, lowered, to_ascii_lower, to_ascii_upper};
use crate::text::{lower_char, push_char, upper_char};

verus! {

/// A formatter producing textual descriptions of key combinations: the
/// prefixes written for each modifier, the label of the enter key, the
/// separator between keys, and whether Shift is rendered implicitly as an
/// uppercase key instead of a prefix.
#[derive(Debug, Clone)]
pub struct KeyCombinationFormat {
    pub control: String,
    pub command: String,  // also called 'super', 'apple', 'windows'
    pub alt: String,
    pub shift: String,
    pub enter: String,
    pub uppercase_shift: bool,
    pub key_separator: String,
}

/// The decimal digit character of a value below ten.
pub open spec fn digit_char(d: u8) -> char {
    ((48 + d) as char)
}

/// The decimal digits of a function-key number.
pub open spec fn dec_digits(n: u8) -> Seq<char> {
    if n < 10 {
        seq![digit_char(n)]
    } else if n < 100 {
        seq![digit_char(n / 10), digit_char(n % 10)]
    } else {
        seq![digit_char(n / 100), digit_char((n / 10) % 10), digit_char(n % 10)]
    }
}

/// The fixed textual name of a media key.
pub open spec fn media_name(m: MediaKeyCode) -> Seq<char> {
    match m {
        MediaKeyCode::Play => "Play"@,
        MediaKeyCode::Pause => "Pause"@,
        MediaKeyCode::PlayPause => "PlayPause"@,
        MediaKeyCode::Reverse => "Reverse"@,
        MediaKeyCode::Stop => "Stop"@,
        MediaKeyCode::FastForward => "FastForward"@,
        MediaKeyCode::Rewind => "Rewind"@,
        MediaKeyCode::TrackNext => "TrackNext"@,
        MediaKeyCode::TrackPrevious => "TrackPrevious"@,
        MediaKeyCode::Record => "Record"@,
        MediaKeyCode::LowerVolume => "LowerVolume"@,
        MediaKeyCode::RaiseVolume => "RaiseVolume"@,
        MediaKeyCode::MuteVolume => "MuteVolume"@,
    }
}

/// The fixed textual name of a standalone modifier key.
pub open spec fn modifier_name(m: ModifierKeyCode) -> Seq<char> {
    match m {
        ModifierKeyCode::LeftShift => "LeftShift"@,
        ModifierKeyCode::LeftControl => "LeftControl"@,
        ModifierKeyCode::LeftAlt => "LeftAlt"@,
        ModifierKeyCode::LeftSuper => "LeftSuper"@,
        ModifierKeyCode::LeftHyper => "LeftHyper"@,
        ModifierKeyCode::LeftMeta => "LeftMeta"@,
        ModifierKeyCode::RightShift => "RightShift"@,
        ModifierKeyCode::RightControl => "RightControl"@,
        ModifierKeyCode::RightAlt => "RightAlt"@,
        ModifierKeyCode::RightSuper => "RightSuper"@,
        ModifierKeyCode::RightHyper => "RightHyper"@,
        ModifierKeyCode::RightMeta => "RightMeta"@,
        ModifierKeyCode::IsoLevel3Shift => "IsoLevel3Shift"@,
        ModifierKeyCode::IsoLevel5Shift => "IsoLevel5Shift"@,
    }
}

/// How one key code is rendered: space and hyphen by name (the hyphen also
/// serves as separator), the enter key and its character forms by the
/// configured label, character keys in lowercase (uppercase when Shift is
/// rendered implicitly), function keys as `F<n>`, and named keys by their
/// fixed name.
pub open spec fn spec_format_code(c: KeyCode, upper: bool, enter_label: Seq<char>) -> Seq<char> {
    match c {
        KeyCode::Char(ch) => if ch == ' ' {
            "Space"@
        } else if ch == '-' {
            "Hyphen"@
        } else if ch == '\r' || ch == '\n' {
            enter_label
        } else if upper {
            seq![to_ascii_upper(ch)]
        } else {
            seq![to_ascii_lower(ch)]
        },
        KeyCode::Enter => enter_label,
        KeyCode::F(n) => seq!['F'] + dec_digits(n),
        KeyCode::Backspace => "Backspace"@,
        KeyCode::Left => "Left"@,
        KeyCode::Right => "Right"@,
        KeyCode::Up => "Up"@,
        KeyCode::Down => "Down"@,
        KeyCode::Home => "Home"@,
        KeyCode::End => "End"@,
        KeyCode::PageUp => "PageUp"@,
        KeyCode::PageDown => "PageDown"@,
        KeyCode::Tab => "Tab"@,
        KeyCode::BackTab => "BackTab"@,
        KeyCode::Delete => "Delete"@,
        KeyCode::Insert => "Insert"@,
        KeyCode::Null => "Null"@,
        KeyCode::Esc => "Esc"@,
        KeyCode::CapsLock => "CapsLock"@,
        KeyCode::ScrollLock => "ScrollLock"@,
        KeyCode::NumLock => "NumLock"@,
        KeyCode::PrintScreen => "PrintScreen"@,
        KeyCode::Pause => "Pause"@,
        KeyCode::Menu => "Menu"@,
        KeyCode::KeypadBegin => "KeypadBegin"@,
        KeyCode::Media(m) => "Media("@ + media_name(m) + ")"@,
        KeyCode::Modifier(m) => "Modifier("@ + modifier_name(m) + ")"@,
    }
}

/// The rendered key codes, joined by the configured separator.
pub open spec fn spec_format_codes(
    codes: OneToThree<KeyCode>,
    upper: bool,
    enter_label: Seq<char>,
    sep: Seq<char>,
) -> Seq<char> {
    match codes {
        OneToThree::One(a) => spec_format_code(a, upper, enter_label),
        OneToThree::Two(a, b) => spec_format_code(a, upper, enter_label) + sep + spec_format_code(
            b,
            upper,
            enter_label,
        ),
        OneToThree::Three(a, b, c) => spec_format_code(a, upper, enter_label) + sep
            + spec_format_code(b, upper, enter_label) + sep + spec_format_code(
            c,
            upper,
            enter_label,
        ),
    }
}

/// How a combination is rendered: the prefixes of the modifiers present, in
/// the fixed order Ctrl, Alt, Shift, Super, then the keys in stored order
/// joined by the separator. With implicit Shift the Shift prefix is empty
/// and character keys are uppercased instead.
pub open spec fn spec_prefixes(fmt: KeyCombinationFormat, mods: crate::key_event::KeyModifiers) -> Seq<
    char,
> {
    (if mods.ctrl {
        fmt.control@
    } else {
        Seq::<char>::empty()
    }) + (if mods.alt {
        fmt.alt@
    } else {
        Seq::<char>::empty()
    }) + (if mods.shift {
        fmt.shift@
    } else {
        Seq::<char>::empty()
    }) + (if mods.super_ {
        fmt.command@
    } else {
        Seq::<char>::empty()
    })
}

pub open spec fn spec_format(fmt: KeyCombinationFormat, kc: KeyCombination) -> Seq<char> {
    let upper = kc.modifiers.shift && fmt.uppercase_shift;
    spec_prefixes(fmt, kc.modifiers) + spec_format_codes(
        kc.codes,
        upper,
        fmt.enter@,
        fmt.key_separator@,
    )
}

impl Default for KeyCombinationFormat {
    /// The standard format: capitalized prefixes `Ctrl-`, `Alt-`, `Shift-`,
    /// `Cmd-`, the label `Enter`, the separator `-`, Shift written out.
    fn default() -> (r: KeyCombinationFormat)
        ensures
            r.control@ == "Ctrl-"@,
            r.command@ == "Cmd-"@,
            r.alt@ == "Alt-"@,
            r.shift@ == "Shift-"@,
            r.enter@ == "Enter"@,
            r.uppercase_shift == false,
            r.key_separator@ == "-"@,
    {
        KeyCombinationFormat {
            control: String::from_str("Ctrl-"),
            command: String::from_str("Cmd-"),
            alt: String::from_str("Alt-"),
            shift: String::from_str("Shift-"),
            enter: String::from_str("Enter"),
            uppercase_shift: false,
            key_separator: String::from_str("-"),
        }
    }
}

/// ASCII-lowercase a whole string.
fn lower_string(s: &String) -> (r: String)
    ensures
        r@ == lowered(s@),
{
    let chars = chars_of_str(s.as_str());
    let low = lower_chars(&chars);
    chars_to_string(low.as_slice())
}

impl KeyCombinationFormat {
    /// The same format with the Ctrl, Alt and Shift prefixes lowercased.
    pub fn with_lowercase_modifiers(self) -> (r: Self)
        ensures
            r.control@ == lowered(self.control@),
            r.alt@ == lowered(self.alt@),
            r.shift@ == lowered(self.shift@),
            r.command == self.command,
            r.enter == self.enter,
            r.uppercase_shift == self.uppercase_shift,
            r.key_separator == self.key_separator,
    {
        let control = lower_string(&self.control);
        let alt = lower_string(&self.alt);
        let shift = lower_string(&self.shift);
        KeyCombinationFormat { control, alt, shift, ..self }
    }

    /// The same format with the given Ctrl prefix.
    pub fn with_control(self, s: &str) -> (r: Self)
        ensures
            r.control@ == s@,
            r.command == self.command,
            r.alt == self.alt,
            r.shift == self.shift,
            r.enter == self.enter,
            r.uppercase_shift == self.uppercase_shift,
            r.key_separator == self.key_separator,
    {
        KeyCombinationFormat { control: String::from_str(s), ..self }
    }

    /// The same format with the given Super prefix.
    pub fn with_command(self, s: &str) -> (r: Self)
        ensures
            r.command@ == s@,
            r.control == self.control,
            r.alt == self.alt,
            r.shift == self.shift,
            r.enter == self.enter,
            r.uppercase_shift == self.uppercase_shift,
            r.key_separator == self.key_separator,
    {
        KeyCombinationFormat { command: String::from_str(s), ..self }
    }

    /// The same format with the given Alt prefix.
    pub fn with_alt(self, s: &str) -> (r: Self)
        ensures
            r.alt@ == s@,
            r.control == self.control,
            r.command == self.command,
            r.shift == self.shift,
            r.enter == self.enter,
            r.uppercase_shift == self.uppercase_shift,
            r.key_separator == self.key_separator,
    {
        KeyCombinationFormat { alt: String::from_str(s), ..self }
    }

    /// The same format with the given Shift prefix.
    pub fn with_shift(self, s: &str) -> (r: Self)
        ensures
            r.shift@ == s@,
            r.control == self.control,
            r.command == self.command,
            r.alt == self.alt,
            r.enter == self.enter,
            r.uppercase_shift == self.uppercase_shift,
            r.key_separator == self.key_separator,
    {
        KeyCombinationFormat { shift: String::from_str(s), ..self }
    }

    /// The same format rendering Shift implicitly: the Shift prefix becomes
    /// empty and character keys are written uppercase instead.
    pub fn with_implicit_shift(self) -> (r: Self)
        ensures
            r.shift@ == Seq::<char>::empty(),
            r.uppercase_shift == true,
            r.control == self.control,
            r.command == self.command,
            r.alt == self.alt,
            r.enter == self.enter,
            r.key_separator == self.key_separator,
    {
        proof {
            reveal_strlit("");
            assert(""@ =~= Seq::<char>::empty());
        }
        KeyCombinationFormat { shift: String::from_str(""), uppercase_shift: true, ..self }
    }

    /// A copy of the format, field by field.
    fn duplicate(&self) -> (r: Self)
        ensures
            r == *self,
    {
        KeyCombinationFormat {
            control: self.control.clone(),
            command: self.command.clone(),
            alt: self.alt.clone(),
            shift: self.shift.clone(),
            enter: self.enter.clone(),
            uppercase_shift: self.uppercase_shift,
            key_separator: self.key_separator.clone(),
        }
    }

    /// The combination bundled with this format, ready to be rendered.
    pub fn format(&self, key: KeyCombination) -> (r: FormattedKeyCombination)
        ensures
            r.format == *self,
            r.key == key,
    {
        FormattedKeyCombination { format: self.duplicate(), key }
    }

    /// The combination rendered under this format.
    pub fn to_string(&self, key: KeyCombination) -> (r: String)
        ensures
            r@ == spec_format(*self, key),
    {
        self.format(key).to_string()
    }
}

/// A key combination bundled with the format to render it under.
pub struct FormattedKeyCombination {
    pub format: KeyCombinationFormat,
    pub key: KeyCombination,
}

/// Append the rendering of one key code to the output.
fn push_code(out: &mut String, code: &KeyCode, upper: bool, enter: &String)
    ensures
        final(out)@ == old(out)@ + spec_format_code(*code, upper, enter@),
{
    match code {
        KeyCode::Char(ch) => {
            if *ch == ' ' {
                out.append("Space");
            } else if *ch == '-' {
                out.append("Hyphen");
            } else if *ch == '\r' || *ch == '\n' {
                out.append(enter.as_str());
            } else if upper {
                let u = upper_char(*ch);
                push_char(out, u);
                proof {
                    assert(final(out)@ =~= old(out)@ + seq![to_ascii_upper((*code)->Char_0)]);
                }
            } else {
                let l = lower_char(*ch);
                push_char(out, l);
                proof {
                    assert(final(out)@ =~= old(out)@ + seq![to_ascii_lower((*code)->Char_0)]);
                }
            }
        },
        KeyCode::Enter => out.append(enter.as_str()),
        KeyCode::F(n) => {
            push_char(out, 'F');
            push_dec_digits(out, *n);
            proof {
                assert(old(out)@.push('F') + dec_digits((*code)->F_0) =~= old(out)@ + (seq!['F']
                    + dec_digits((*code)->F_0)));
            }
        },
        KeyCode::Backspace => out.append("Backspace"),
        KeyCode::Left => out.append("Left"),
        KeyCode::Right => out.append("Right"),
        KeyCode::Up => out.append("Up"),
        KeyCode::Down => out.append("Down"),
        KeyCode::Home => out.append("Home"),
        KeyCode::End => out.append("End"),
        KeyCode::PageUp => out.append("PageUp"),
        KeyCode::PageDown => out.append("PageDown"),
        KeyCode::Tab => out.append("Tab"),
        KeyCode::BackTab => out.append("BackTab"),
        KeyCode::Delete => out.append("Delete"),
        KeyCode::Insert => out.append("Insert"),
        KeyCode::Null => out.append("Null"),
        KeyCode::Esc => out.append("Esc"),
        KeyCode::CapsLock => out.append("CapsLock"),
        KeyCode::ScrollLock => out.append("ScrollLock"),
        KeyCode::NumLock => out.append("NumLock"),
        KeyCode::PrintScreen => out.append("PrintScreen"),
        KeyCode::Pause => out.append("Pause"),
        KeyCode::Menu => out.append("Menu"),
        KeyCode::KeypadBegin => out.append("KeypadBegin"),
        KeyCode::Media(m) => {
            out.append("Media(");
            match m {
                MediaKeyCode::Play => out.append("Play"),
                MediaKeyCode::Pause => out.append("Pause"),
                MediaKeyCode::PlayPause => out.append("PlayPause"),
                MediaKeyCode::Reverse => out.append("Reverse"),
                MediaKeyCode::Stop => out.append("Stop"),
                MediaKeyCode::FastForward => out.append("FastForward"),
                MediaKeyCode::Rewind => out.append("Rewind"),
                MediaKeyCode::TrackNext => out.append("TrackNext"),
                MediaKeyCode::TrackPrevious => out.append("TrackPrevious"),
                MediaKeyCode::Record => out.append("Record"),
                MediaKeyCode::LowerVolume => out.append("LowerVolume"),
                MediaKeyCode::RaiseVolume => out.append("RaiseVolume"),
                MediaKeyCode::MuteVolume => out.append("MuteVolume"),
            }
            out.append(")");
            proof {
                assert(final(out)@ =~= old(out)@ + ("Media("@ + media_name((*code)->Media_0)
                    + ")"@));
            }
        },
        KeyCode::Modifier(m) => {
            out.append("Modifier(");
            match m {
                ModifierKeyCode::LeftShift => out.append("LeftShift"),
                ModifierKeyCode::LeftControl => out.append("LeftControl"),
                ModifierKeyCode::LeftAlt => out.append("LeftAlt"),
                ModifierKeyCode::LeftSuper => out.append("LeftSuper"),
                ModifierKeyCode::LeftHyper => out.append("LeftHyper"),
                ModifierKeyCode::LeftMeta => out.append("LeftMeta"),
                ModifierKeyCode::RightShift => out.append("RightShift"),
                ModifierKeyCode::RightControl => out.append("RightControl"),
                ModifierKeyCode::RightAlt => out.append("RightAlt"),
                ModifierKeyCode::RightSuper => out.append("RightSuper"),
                ModifierKeyCode::RightHyper => out.append("RightHyper"),
                ModifierKeyCode::RightMeta => out.append("RightMeta"),
                ModifierKeyCode::IsoLevel3Shift => out.append("IsoLevel3Shift"),
                ModifierKeyCode::IsoLevel5Shift => out.append("IsoLevel5Shift"),
            }
            out.append(")");
            proof {
                assert(final(out)@ =~= old(out)@ + ("Modifier("@ + modifier_name((*code)->Modifier_0)
                    + ")"@));
            }
        },
    }
}

/// Append the decimal digits of a function-key number to the output.
fn push_dec_digits(out: &mut String, n: u8)
    ensures
        final(out)@ == old(out)@ + dec_digits(n),
{
    if n < 10 {
        push_char(out, digit_of(n));
        proof {
            assert(final(out)@ =~= old(out)@ + dec_digits(n));
        }
    } else if n < 100 {
        push_char(out, digit_of(n / 10));
        push_char(out, digit_of(n % 10));
        proof {
            assert(final(out)@ =~= old(out)@ + dec_digits(n));
        }
    } else {
        push_char(out, digit_of(n / 100));
        push_char(out, digit_of((n / 10) % 10));
        push_char(out, digit_of(n % 10));
        proof {
            assert(final(out)@ =~= old(out)@ + dec_digits(n));
        }
    }
}

/// The digit character of a value below ten.
fn digit_of(d: u8) -> (r: char)
    requires
        d < 10,
    ensures
        r == digit_char(d),
{
    (48 + d) as char
}

/// Append the prefixes of the modifiers present, in the fixed order.
fn push_prefixes(out: &mut String, fmt: &KeyCombinationFormat, mods: crate::key_event::KeyModifiers)
    ensures
        final(out)@ == old(out)@ + spec_prefixes(*fmt, mods),
{
    if mods.ctrl {
        out.append(fmt.control.as_str());
    }
    if mods.alt {
        out.append(fmt.alt.as_str());
    }
    if mods.shift {
        out.append(fmt.shift.as_str());
    }
    if mods.super_ {
        out.append(fmt.command.as_str());
    }
    proof {
        assert(final(out)@ =~= old(out)@ + spec_prefixes(*fmt, mods));
    }
}

impl FormattedKeyCombination {
    /// The combination rendered under the bundled format.
    pub fn to_string(&self) -> (r: String)
        ensures
            r@ == spec_format(self.format, self.key),
    {
        let fmt = &self.format;
        let key = &self.key;
        let mut out = String::new();
        push_prefixes(&mut out, fmt, key.modifiers);
        let upper = key.modifiers.shift && fmt.uppercase_shift;
        match &key.codes {
            OneToThree::One(a) => {
                push_code(&mut out, a, upper, &fmt.enter);
            },
            OneToThree::Two(a, b) => {
                push_code(&mut out, a, upper, &fmt.enter);
                out.append(fmt.key_separator.as_str());
                push_code(&mut out, b, upper, &fmt.enter);
            },
            OneToThree::Three(a, b, c) => {
                push_code(&mut out, a, upper, &fmt.enter);
                out.append(fmt.key_separator.as_str());
                push_code(&mut out, b, upper, &fmt.enter);
                out.append(fmt.key_separator.as_str());
                push_code(&mut out, c, upper, &fmt.enter);
            },
        }
        proof {
            assert(out@ =~= spec_format(self.format, self.key));
        }
        out
    }
}

} // verus!
