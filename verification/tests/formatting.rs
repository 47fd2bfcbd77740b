use crokey::{
    parse, KeyCode, KeyCombination, KeyCombinationFormat, KeyModifiers, MediaKeyCode,
    ModifierKeyCode, OneToThree,
};

fn mods(ctrl: bool, alt: bool, shift: bool) -> KeyModifiers {
    KeyModifiers { ctrl, alt, shift, super_: false }
}

#[test]
fn format() {
    let format = KeyCombinationFormat::default();
    assert_eq!(format.to_string(parse("insert").unwrap()), "Insert");
    assert_eq!(format.to_string(parse("space").unwrap()), "Space");
    assert_eq!(format.to_string(parse("alt-Space").unwrap()), "Alt-Space");
    assert_eq!(format.to_string(parse("shift- ").unwrap()), "Shift-Space");
    assert_eq!(format.to_string(parse("alt-hyphen").unwrap()), "Alt-Hyphen");
    let cmd_f10 = KeyCombination::new(
        OneToThree::One(KeyCode::F(10)),
        KeyModifiers { ctrl: false, alt: false, shift: false, super_: true },
    );
    assert_eq!(format.to_string(cmd_f10), "Cmd-F10");
}

#[test]
fn format_default_prefixes() {
    let format = KeyCombinationFormat::default();
    assert_eq!(format.to_string(parse("shift-a").unwrap()), "Shift-a");
    assert_eq!(format.to_string(parse("ctrl-c").unwrap()), "Ctrl-c");
    assert_eq!(format.to_string(parse("ctrl-alt-shift-q").unwrap()), "Ctrl-Alt-Shift-q");
    assert_eq!(format.to_string(parse("enter").unwrap()), "Enter");
    assert_eq!(format.to_string(parse("backtab").unwrap()), "Shift-BackTab");
    assert_eq!(format.to_string(parse("f6").unwrap()), "F6");
}

#[test]
fn format_compact() {
    // a more compact format: implicit shift, caret for control
    let format = KeyCombinationFormat::default().with_implicit_shift().with_control("^");
    assert_eq!(format.to_string(parse("shift-a").unwrap()), "A");
    assert_eq!(format.to_string(parse("ctrl-c").unwrap()), "^c");
}

#[test]
fn format_lowercase_modifiers() {
    let format = KeyCombinationFormat::default().with_lowercase_modifiers();
    assert_eq!(format.to_string(parse("ctrl-enter").unwrap()), "ctrl-Enter");
    assert_eq!(format.to_string(parse("home").unwrap()), "Home");
    assert_eq!(
        format.to_string(KeyCombination::new(OneToThree::One(KeyCode::F(6)), mods(false, true, false))),
        "alt-F6",
    );
    assert_eq!(
        format.to_string(
            KeyCombination::new(
                OneToThree::Two(KeyCode::Char('u'), KeyCode::Char('i')),
                mods(false, false, false),
            ),
        ),
        "i-u",
    );
}

#[test]
fn format_builders() {
    let format = KeyCombinationFormat::default()
        .with_alt("A:")
        .with_shift("S:")
        .with_command("W:")
        .with_control("C:");
    assert_eq!(format.to_string(parse("ctrl-alt-shift-x").unwrap()), "C:A:S:x");
    let wrapped = format.format(parse("ctrl-b").unwrap());
    assert_eq!(wrapped.to_string(), "C:b");
}

#[test]
fn format_round_trip_reparses_equal() {
    // the round-trip law, on concrete values
    let format = KeyCombinationFormat::default();
    for raw in [
        "left",
        "RIGHT",
        "ctrl-alt-shift-q",
        "alt--",
        "backtab",
        "shift-backtab",
        "a-b",
        "alt-f12-@",
        "ctrl-shift-alt-space",
        "i-u",
        "alt-f4-a-b",
        "f24",
        "shift-2",
        "ctrl-_",
        "esc",
        "pagedown",
        "tab",
    ] {
        let kc = parse(raw).unwrap();
        let rendered = format.to_string(kc);
        let reparsed = parse(&rendered).unwrap();
        assert_eq!(reparsed, kc, "round trip failed for {:?} via {:?}", raw, rendered);
    }
}

#[test]
fn format_named_and_rare_keys() {
    let format = KeyCombinationFormat::default();
    let one = |code: KeyCode| KeyCombination::from(code);
    assert_eq!(format.to_string(one(KeyCode::Null)), "Null");
    assert_eq!(format.to_string(one(KeyCode::CapsLock)), "CapsLock");
    assert_eq!(format.to_string(one(KeyCode::Media(MediaKeyCode::Play))), "Media(Play)");
    assert_eq!(
        format.to_string(one(KeyCode::Modifier(ModifierKeyCode::LeftShift))),
        "Modifier(LeftShift)",
    );
    // function keys above the parser's vocabulary still render
    assert_eq!(format.to_string(one(KeyCode::F(42))), "F42");
    assert_eq!(format.to_string(one(KeyCode::F(255))), "F255");
}

#[test]
fn format_implicit_shift_non_letters() {
    let format = KeyCombinationFormat::default().with_implicit_shift();
    // named renderings win over the implicit-shift uppercasing
    assert_eq!(format.to_string(parse("shift-space").unwrap()), "Space");
    // non-letters have no uppercase form
    assert_eq!(format.to_string(parse("shift-2").unwrap()), "2");
}

#[test]
fn format_enter_label() {
    let format = KeyCombinationFormat::default();
    assert_eq!(format.to_string(parse("enter").unwrap()), "Enter");
    // the carriage-return character key borrows the enter label
    let cr = KeyCombination::from(KeyCode::Char('\r'));
    assert_eq!(format.to_string(cr), "Enter");
}
