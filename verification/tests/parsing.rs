use crokey::{parse, parse_key_code, KeyCode, KeyCombination, KeyModifiers, OneToThree};

fn mods(ctrl: bool, alt: bool, shift: bool) -> KeyModifiers {
    KeyModifiers { ctrl, alt, shift, super_: false }
}

fn no_mod(code: KeyCode) -> KeyCombination {
    KeyCombination::from(code)
}

fn check_ok(raw: &str, key: KeyCombination) {
    let parsed = parse(raw);
    assert!(parsed.is_ok(), "failed to parse {:?} as key combination", raw);
    assert_eq!(parsed.unwrap(), key);
}

#[test]
fn check_key_parsing() {
    assert!(parse("").is_err());
    check_ok("left", no_mod(KeyCode::Left));
    check_ok("RIGHT", no_mod(KeyCode::Right));
    check_ok("Home", no_mod(KeyCode::Home));
    check_ok(
        "backtab",
        KeyCombination::new(OneToThree::One(KeyCode::BackTab), mods(false, false, true)),
    );
    check_ok("f1", KeyCombination::from(KeyCode::F(1)));
    check_ok("F2", KeyCombination::from(KeyCode::F(2)));
    check_ok("Enter", KeyCombination::from(KeyCode::Enter));
    check_ok(
        "alt-enter",
        KeyCombination::new(OneToThree::One(KeyCode::Enter), mods(false, true, false)),
    );
    check_ok("insert", KeyCombination::from(KeyCode::Insert));
    check_ok(
        "ctrl-q",
        KeyCombination::new(OneToThree::One(KeyCode::Char('q')), mods(true, false, false)),
    );
    check_ok(
        "shift-q",
        KeyCombination::new(OneToThree::One(KeyCode::Char('Q')), mods(false, false, true)),
    );
    check_ok(
        "ctrl-Q",
        KeyCombination::new(OneToThree::One(KeyCode::Char('q')), mods(true, false, false)),
    );
    check_ok(
        "shift-Q",
        KeyCombination::new(OneToThree::One(KeyCode::Char('Q')), mods(false, false, true)),
    );
    check_ok(
        "ctrl-shift-Q",
        KeyCombination::new(OneToThree::One(KeyCode::Char('Q')), mods(true, false, true)),
    );
    check_ok(
        "-",
        KeyCombination::new(OneToThree::One(KeyCode::Char('-')), mods(false, false, false)),
    );
    check_ok(
        "Hyphen",
        KeyCombination::new(OneToThree::One(KeyCode::Char('-')), mods(false, false, false)),
    );
    check_ok(
        "alt--",
        KeyCombination::new(OneToThree::One(KeyCode::Char('-')), mods(false, true, false)),
    );
    check_ok(
        "alt-hyphen",
        KeyCombination::new(OneToThree::One(KeyCode::Char('-')), mods(false, true, false)),
    );
    check_ok(
        "alt-hyphen",
        KeyCombination::new(OneToThree::One(KeyCode::Char('-')), mods(false, true, false)),
    );
    check_ok(
        "ctrl-Shift-alt-space",
        KeyCombination::new(OneToThree::One(KeyCode::Char(' ')), mods(true, true, true)),
    );
    check_ok(
        "ctrl-shift-alt--",
        KeyCombination::new(OneToThree::One(KeyCode::Char('-')), mods(true, true, true)),
    );

    // multiple codes
    check_ok(
        "alt-f12-@",
        KeyCombination::new(
            OneToThree::Two(KeyCode::F(12), KeyCode::Char('@')),
            mods(false, true, false),
        ),
    );
    check_ok(
        "alt-f12-@",
        KeyCombination::new(
            // it's the same because the codes are sorted
            OneToThree::Two(KeyCode::Char('@'), KeyCode::F(12)),
            mods(false, true, false),
        ),
    );
    check_ok(
        "a-b",
        KeyCombination::new(
            OneToThree::Two(KeyCode::Char('a'), KeyCode::Char('b')),
            mods(false, false, false),
        ),
    );
}

#[test]
fn key_code() {
    assert_eq!(parse_key_code("backspace", false).unwrap(), KeyCode::Backspace);
    assert_eq!(parse_key_code("5", false).unwrap(), KeyCode::Char('5'));
    assert_eq!(parse_key_code("x", false).unwrap(), KeyCode::Char('x'));
    assert_eq!(parse_key_code("]", false).unwrap(), KeyCode::Char(']'));
    assert_eq!(parse_key_code(":", false).unwrap(), KeyCode::Char(':'));
    assert_eq!(parse_key_code("+", false).unwrap(), KeyCode::Char('+'));
    assert_eq!(parse_key_code("f", false).unwrap(), KeyCode::Char('f'));
    assert_eq!(parse_key_code("tab", false).unwrap(), KeyCode::Tab);
    assert_eq!(parse_key_code("f24", false).unwrap(), KeyCode::F(24));
    assert_eq!(parse_key_code("q", true).unwrap(), KeyCode::Char('Q'));
    assert_eq!(parse_key_code("space", true).unwrap(), KeyCode::Char(' '));
}

#[test]
fn lib_key() {
    assert_eq!(parse("backspace").unwrap(), no_mod(KeyCode::Backspace));
    assert_eq!(parse("bAcKsPaCe").unwrap(), no_mod(KeyCode::Backspace));
    assert_eq!(parse("0").unwrap(), no_mod(KeyCode::Char('0')));
    assert_eq!(parse("9").unwrap(), no_mod(KeyCode::Char('9')));
    assert_eq!(parse("x").unwrap(), no_mod(KeyCode::Char('x')));
    assert_eq!(parse("X").unwrap(), no_mod(KeyCode::Char('x')));
    assert_eq!(parse("]").unwrap(), no_mod(KeyCode::Char(']')));
    assert_eq!(parse("f").unwrap(), no_mod(KeyCode::Char('f')));
    assert_eq!(parse("F").unwrap(), no_mod(KeyCode::Char('f')));
    assert_eq!(parse("f10").unwrap(), no_mod(KeyCode::F(10)));
    assert_eq!(parse("F10").unwrap(), no_mod(KeyCode::F(10)));
    assert_eq!(
        parse("ctrl-c").unwrap(),
        KeyCombination::new(OneToThree::One(KeyCode::Char('c')), mods(true, false, false)),
    );
    assert_eq!(
        parse("alt-shift-c").unwrap(),
        KeyCombination::new(OneToThree::One(KeyCode::Char('C')), mods(false, true, true)),
    );
    assert_eq!(parse("shift-alt-2").unwrap(), parse("ALT-SHIFT-2").unwrap());
    assert_eq!(parse("space").unwrap(), parse(" ").unwrap());
    assert_eq!(parse("hyphen").unwrap(), parse("-").unwrap());
    assert_eq!(parse("minus").unwrap(), parse("-").unwrap());

    assert_eq!(
        parse("ctrl-alt-a-b").unwrap(),
        KeyCombination::new(
            OneToThree::Two(KeyCode::Char('a'), KeyCode::Char('b')),
            mods(true, true, false),
        ),
    );
    assert_eq!(
        parse("alt-f4-a-b").unwrap(),
        KeyCombination::new(
            OneToThree::Three(KeyCode::F(4), KeyCode::Char('a'), KeyCode::Char('b')),
            mods(false, true, false),
        ),
    );
    // check that key codes are sorted
    assert_eq!(
        parse("alt-a-b-f4").unwrap(),
        KeyCombination::new(
            OneToThree::Three(KeyCode::F(4), KeyCode::Char('a'), KeyCode::Char('b')),
            mods(false, true, false),
        ),
    );
    assert_eq!(
        parse("z-e").unwrap(),
        KeyCombination::new(
            OneToThree::Two(KeyCode::Char('e'), KeyCode::Char('z')),
            mods(false, false, false),
        ),
    );
}

#[test]
fn key_pattern() {
    assert_eq!(parse("ctrl-alt-shift-c").unwrap(), parse("ctrl-alt-shift-c").unwrap());
    assert_ne!(parse("ctrl-c").unwrap(), parse("ctrl-alt-shift-c").unwrap());
    assert_eq!(parse("ctrl-alt-b").unwrap(), parse("ctrl-alt-b").unwrap());
    assert_eq!(parse("ctrl-b").unwrap(), parse("ctrl-b").unwrap());
    assert_eq!(parse("alt-b").unwrap(), parse("alt-b").unwrap());
    assert_ne!(parse("ctrl-b").unwrap(), parse("alt-b").unwrap());
    assert_ne!(parse("alt-b").unwrap(), parse("ctrl-b").unwrap());
    assert_ne!(parse("alt-b").unwrap(), parse("ctrl-alt-b").unwrap());
    assert_ne!(parse("ctrl-b").unwrap(), parse("ctrl-alt-b").unwrap());
    assert_ne!(parse("ctrl-alt-b").unwrap(), parse("alt-b").unwrap());
    assert_ne!(parse("ctrl-alt-b").unwrap(), parse("ctrl-b").unwrap());
}

#[test]
fn macros_key() {
    assert_eq!(
        parse("-").unwrap(),
        KeyCombination::new(OneToThree::One(KeyCode::Char('-')), mods(false, false, false)),
    );
    assert_eq!(
        parse("+").unwrap(),
        KeyCombination::new(OneToThree::One(KeyCode::Char('+')), mods(false, false, false)),
    );
    assert_eq!(
        parse("ctrl-=").unwrap(),
        KeyCombination::new(OneToThree::One(KeyCode::Char('=')), mods(true, false, false)),
    );
    assert_eq!(
        parse("ctrl->").unwrap(),
        KeyCombination::new(OneToThree::One(KeyCode::Char('>')), mods(true, false, false)),
    );
    assert_eq!(
        parse("ctrl--").unwrap(),
        KeyCombination::new(OneToThree::One(KeyCode::Char('-')), mods(true, false, false)),
    );
    assert_eq!(
        parse("shift-=").unwrap(),
        KeyCombination::new(OneToThree::One(KeyCode::Char('=')), mods(false, false, true)),
    );
    assert_eq!(
        parse("alt-shift-=").unwrap(),
        KeyCombination::new(OneToThree::One(KeyCode::Char('=')), mods(false, true, true)),
    );
    assert_eq!(parse("shift-alt-2").unwrap(), parse("alt-shift-2").unwrap());
    assert_eq!(
        parse("alt-shift-=").unwrap(),
        KeyCombination::new(OneToThree::One(KeyCode::Char('=')), mods(false, true, true)),
    );
}

#[test]
fn parse_errors_carry_the_offending_token() {
    let e = parse("").unwrap_err();
    assert_eq!(e.raw, "");
    let e = parse("ctrl-xx").unwrap_err();
    assert_eq!(e.raw, "xx");
    let e = parse("nosuchkey").unwrap_err();
    assert_eq!(e.raw, "nosuchkey");
    // four keys are one too many; the error carries no token
    let e = parse("a-b-c-d").unwrap_err();
    assert_eq!(e.raw, "");
    // a non-ASCII character is not a single-byte token
    assert!(parse("é").is_err());
    // an empty token after a separator
    let e = parse("a--b").unwrap_err();
    assert_eq!(e.raw, "");
    let e = parse_key_code("nope", false).unwrap_err();
    assert_eq!(e.raw, "nope");
    assert!(parse_key_code("f25", false).is_err());
    assert!(parse_key_code("", true).is_err());
}

#[test]
fn parse_scenario_full_modifiers() {
    // parsing with all three modifiers normalizes the letter to uppercase
    let kc = parse("ctrl-alt-shift-q").unwrap();
    assert_eq!(
        kc,
        KeyCombination::new(OneToThree::One(KeyCode::Char('Q')), mods(true, true, true)),
    );
    match kc.codes {
        OneToThree::One(KeyCode::Char(c)) => assert_eq!(c, 'Q'),
        _ => panic!("expected a single character code"),
    }
    assert!(kc.modifiers.ctrl && kc.modifiers.alt && kc.modifiers.shift && !kc.modifiers.super_);
}

#[test]
fn parse_scenario_hyphen_key() {
    // both spellings of the hyphen key with alt give the same combination
    let a = parse("alt--").unwrap();
    let b = parse("alt-hyphen").unwrap();
    assert_eq!(a, b);
    assert_eq!(
        a,
        KeyCombination::new(OneToThree::One(KeyCode::Char('-')), mods(false, true, false)),
    );
}
