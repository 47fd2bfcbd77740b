use crokey::{
    as_letter, normalize_key_code, EmptyCombinationError, KeyCode, KeyCombination, KeyEvent,
    KeyEventKind, KeyModifiers, OneToThree,
};

fn mods(ctrl: bool, alt: bool, shift: bool) -> KeyModifiers {
    KeyModifiers { ctrl, alt, shift, super_: false }
}

#[test]
fn sort_invariant_on_construction() {
    // the same multiset of codes, in any input order, stores identically
    let m = mods(false, true, false);
    let reference = KeyCombination::new(
        OneToThree::Three(KeyCode::F(4), KeyCode::Char('a'), KeyCode::Char('b')),
        m,
    );
    let permutations = [
        OneToThree::Three(KeyCode::F(4), KeyCode::Char('a'), KeyCode::Char('b')),
        OneToThree::Three(KeyCode::F(4), KeyCode::Char('b'), KeyCode::Char('a')),
        OneToThree::Three(KeyCode::Char('a'), KeyCode::F(4), KeyCode::Char('b')),
        OneToThree::Three(KeyCode::Char('a'), KeyCode::Char('b'), KeyCode::F(4)),
        OneToThree::Three(KeyCode::Char('b'), KeyCode::F(4), KeyCode::Char('a')),
        OneToThree::Three(KeyCode::Char('b'), KeyCode::Char('a'), KeyCode::F(4)),
    ];
    for p in permutations {
        assert_eq!(KeyCombination::new(p, m), reference);
    }
    // the stored order puts the function key first
    assert_eq!(
        reference.codes,
        OneToThree::Three(KeyCode::F(4), KeyCode::Char('a'), KeyCode::Char('b')),
    );
    assert_eq!(
        KeyCombination::new(OneToThree::Two(KeyCode::Char('z'), KeyCode::Char('e')), m),
        KeyCombination::new(OneToThree::Two(KeyCode::Char('e'), KeyCode::Char('z')), m),
    );
}

#[test]
fn normalization_invariant_single_letters() {
    // a normalized single-letter combination carries Shift exactly when
    // the stored letter is uppercase
    let lower_no_shift = KeyCombination::one_key(KeyCode::Char('q'), mods(false, false, false));
    let n = lower_no_shift.normalized();
    assert_eq!(n.codes, OneToThree::One(KeyCode::Char('q')));
    assert!(!n.modifiers.shift);

    let lower_shift = KeyCombination::one_key(KeyCode::Char('q'), mods(false, false, true));
    let n = lower_shift.normalized();
    assert_eq!(n.codes, OneToThree::One(KeyCode::Char('Q')));
    assert!(n.modifiers.shift);

    let upper_no_shift = KeyCombination::one_key(KeyCode::Char('Q'), mods(false, false, false));
    let n = upper_no_shift.normalized();
    assert_eq!(n.codes, OneToThree::One(KeyCode::Char('Q')));
    assert!(n.modifiers.shift);

    let upper_shift = KeyCombination::one_key(KeyCode::Char('Q'), mods(true, false, true));
    let n = upper_shift.normalized();
    assert_eq!(n.codes, OneToThree::One(KeyCode::Char('Q')));
    assert!(n.modifiers.shift && n.modifiers.ctrl);
}

#[test]
fn normalize_key_code_cases() {
    let mut code = KeyCode::Char('a');
    assert!(!normalize_key_code(&mut code, mods(false, false, true)));
    assert_eq!(code, KeyCode::Char('A'));

    let mut code = KeyCode::Char('B');
    assert!(normalize_key_code(&mut code, mods(false, false, false)));
    assert_eq!(code, KeyCode::Char('B'));

    let mut code = KeyCode::Char('7');
    assert!(!normalize_key_code(&mut code, mods(false, false, true)));
    assert_eq!(code, KeyCode::Char('7'));

    let mut code = KeyCode::Enter;
    assert!(!normalize_key_code(&mut code, mods(false, false, false)));
    assert_eq!(code, KeyCode::Enter);
}

#[test]
fn ansi_compatibility() {
    let one = KeyCombination::from(KeyCode::Char('x'));
    assert!(one.is_ansi_compatible());
    let two = KeyCombination::new(
        OneToThree::Two(KeyCode::Char('a'), KeyCode::Char('b')),
        mods(false, false, false),
    );
    assert!(!two.is_ansi_compatible());
}

#[test]
fn letters() {
    let plain = KeyCombination::from(KeyCode::Char('x'));
    assert_eq!(plain.as_letter(), Some('x'));
    let modified = KeyCombination::new(OneToThree::One(KeyCode::Char('x')), mods(true, false, false));
    assert_eq!(modified.as_letter(), None);
    let named = KeyCombination::from(KeyCode::Enter);
    assert_eq!(named.as_letter(), None);

    let ev = KeyEvent::new(KeyCode::Char('G'), mods(false, false, false));
    assert_eq!(as_letter(ev), Some('G'));
    let ev = KeyEvent::new(KeyCode::Char('g'), mods(false, false, true));
    assert_eq!(as_letter(ev), None);
}

#[test]
fn combination_from_events() {
    let e1 = KeyEvent::new(KeyCode::Char('b'), mods(true, false, false));
    let e2 = KeyEvent::new(KeyCode::Char('a'), mods(false, true, false));
    let kc = KeyCombination::try_from(&[e1, e2][..]).unwrap();
    assert_eq!(
        kc,
        KeyCombination::new(
            OneToThree::Two(KeyCode::Char('a'), KeyCode::Char('b')),
            mods(true, true, false),
        ),
    );
    assert_eq!(KeyCombination::try_from(&[][..]), Err(EmptyCombinationError));
    let too_many = [e1, e2, e1, e2];
    assert_eq!(KeyCombination::try_from(&too_many[..]), Err(EmptyCombinationError));
}

#[test]
fn event_conversions() {
    // a key event converts to its normalized single-code combination
    let ev = KeyEvent::new(KeyCode::Char('g'), mods(false, false, true));
    assert_eq!(
        KeyCombination::from(ev),
        KeyCombination::new(OneToThree::One(KeyCode::Char('G')), mods(false, false, true)),
    );
    // converting back to a legacy event keeps only the first code
    let kc = KeyCombination::new(
        OneToThree::Two(KeyCode::F(2), KeyCode::Char('a')),
        mods(true, false, false),
    );
    let back = KeyEvent::from(kc);
    assert_eq!(back.code, KeyCode::F(2));
    assert_eq!(back.modifiers, mods(true, false, false));
    assert_eq!(back.kind, KeyEventKind::Press);
}

#[test]
fn modifier_sets() {
    assert!(KeyModifiers::empty().is_empty());
    assert_eq!(KeyModifiers::empty(), KeyModifiers::default());
    let a = mods(true, false, false);
    let b = mods(false, false, true);
    assert_eq!(a.union(b), mods(true, false, true));
    assert!(!a.is_empty());
    assert_eq!(a.with_shift(), mods(true, false, true));
}
