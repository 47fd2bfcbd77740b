use crokey::{
    is_key_simple, Combiner, KeyCode, KeyCombination, KeyEvent, KeyEventKind, KeyModifiers,
    ModifierKeyCode, OneToThree,
};

fn no_mods() -> KeyModifiers {
    KeyModifiers { ctrl: false, alt: false, shift: false, super_: false }
}

fn press(c: char) -> KeyEvent {
    KeyEvent { code: KeyCode::Char(c), modifiers: no_mods(), kind: KeyEventKind::Press }
}

fn release(c: char) -> KeyEvent {
    KeyEvent { code: KeyCode::Char(c), modifiers: no_mods(), kind: KeyEventKind::Release }
}

fn combining_combiner() -> Combiner {
    let mut combiner = Combiner::default();
    combiner.note_enhancement_flags_pushed();
    assert!(combiner.is_combining());
    combiner
}

#[test]
fn legacy_mode_reports_presses_alone() {
    // in the disabled (legacy) state, every press yields one single-code
    // combination at once, and releases and repeats yield nothing
    let mut combiner = Combiner::default();
    assert!(!combiner.is_combining());
    let out = combiner.transform(press('a'));
    assert_eq!(out, Some(KeyCombination::from(KeyCode::Char('a'))));
    assert_eq!(combiner.transform(release('a')), None);
    let repeat = KeyEvent { code: KeyCode::Char('a'), modifiers: no_mods(), kind: KeyEventKind::Repeat };
    assert_eq!(combiner.transform(repeat), None);
    let out = combiner.transform(press('b'));
    assert_eq!(out, Some(KeyCombination::from(KeyCode::Char('b'))));
}

#[test]
fn legacy_mode_normalizes_events() {
    let mut combiner = Combiner::default();
    let shift = KeyModifiers { ctrl: false, alt: false, shift: true, super_: false };
    let ev = KeyEvent { code: KeyCode::Char('g'), modifiers: shift, kind: KeyEventKind::Press };
    assert_eq!(
        combiner.transform(ev),
        Some(KeyCombination::new(OneToThree::One(KeyCode::Char('G')), shift)),
    );
}

#[test]
fn combining_simple_press_reports_immediately() {
    // default policy: an isolated simple key is reported on its press
    let mut combiner = combining_combiner();
    let out = combiner.transform(press('a'));
    assert_eq!(out, Some(KeyCombination::from(KeyCode::Char('a'))));
    // the accumulator was cleared: the matching release yields nothing
    assert_eq!(combiner.transform(release('a')), None);
}

#[test]
fn combining_space_waits_for_release() {
    // space is not a simple key: it is only reported on release
    let mut combiner = combining_combiner();
    assert_eq!(combiner.transform(press(' ')), None);
    assert_eq!(
        combiner.transform(release(' ')),
        Some(KeyCombination::from(KeyCode::Char(' '))),
    );
}

#[test]
fn combining_modified_press_waits_for_release() {
    let mut combiner = combining_combiner();
    let ctrl = KeyModifiers { ctrl: true, alt: false, shift: false, super_: false };
    let ev = KeyEvent { code: KeyCode::Char('i'), modifiers: ctrl, kind: KeyEventKind::Press };
    assert_eq!(combiner.transform(ev), None);
    let ev_u = KeyEvent { code: KeyCode::Char('u'), modifiers: ctrl, kind: KeyEventKind::Press };
    assert_eq!(combiner.transform(ev_u), None);
    let ev_rel = KeyEvent { code: KeyCode::Char('i'), modifiers: ctrl, kind: KeyEventKind::Release };
    assert_eq!(
        combiner.transform(ev_rel),
        Some(KeyCombination::new(
            OneToThree::Two(KeyCode::Char('i'), KeyCode::Char('u')),
            ctrl,
        )),
    );
}

#[test]
fn combining_cap_flushes_on_third_press() {
    // with the immediate policy off, three distinct simple keys flush as
    // one three-code combination on the third press, and the following
    // release yields nothing more
    let mut combiner = combining_combiner();
    combiner.set_mandate_modifier_for_multiple_keys(false);
    assert_eq!(combiner.transform(press('a')), None);
    assert_eq!(combiner.transform(press('b')), None);
    let out = combiner.transform(press('c'));
    assert_eq!(
        out,
        Some(KeyCombination::new(
            OneToThree::Three(KeyCode::Char('a'), KeyCode::Char('b'), KeyCode::Char('c')),
            no_mods(),
        )),
    );
    assert_eq!(combiner.transform(release('c')), None);
}

#[test]
fn combining_two_keys_flush_on_release() {
    // with the immediate policy off, two held keys are reported as one
    // two-code combination, at the release
    let mut combiner = combining_combiner();
    combiner.set_mandate_modifier_for_multiple_keys(false);
    assert_eq!(combiner.transform(press('a')), None);
    assert_eq!(combiner.transform(press('b')), None);
    let out = combiner.transform(release('b'));
    assert_eq!(
        out,
        Some(KeyCombination::new(
            OneToThree::Two(KeyCode::Char('a'), KeyCode::Char('b')),
            no_mods(),
        )),
    );
    // nothing is left accumulated
    assert_eq!(combiner.transform(release('a')), None);
}

#[test]
fn combining_sticky_shift() {
    // a standalone Shift key press never yields a combination, but marks
    // the following accumulation as shifted until its release
    let mut combiner = combining_combiner();
    let shift_down = KeyEvent {
        code: KeyCode::Modifier(ModifierKeyCode::LeftShift),
        modifiers: no_mods(),
        kind: KeyEventKind::Press,
    };
    assert_eq!(combiner.transform(shift_down), None);
    // with Shift held, even a simple key waits for its release
    assert_eq!(combiner.transform(press('a')), None);
    let out = combiner.transform(release('a'));
    let expected = KeyCombination {
        codes: OneToThree::One(KeyCode::Char('a')),
        modifiers: KeyModifiers { ctrl: false, alt: false, shift: true, super_: false },
    };
    assert_eq!(out, Some(expected));
    let shift_up = KeyEvent {
        code: KeyCode::Modifier(ModifierKeyCode::LeftShift),
        modifiers: no_mods(),
        kind: KeyEventKind::Release,
    };
    assert_eq!(combiner.transform(shift_up), None);
    // Shift no longer held: back to immediate reporting
    assert_eq!(combiner.transform(press('b')), Some(KeyCombination::from(KeyCode::Char('b'))));
}

#[test]
fn combining_repeat_reemits_without_clearing() {
    let mut combiner = combining_combiner();
    let ctrl = KeyModifiers { ctrl: true, alt: false, shift: false, super_: false };
    let down = KeyEvent { code: KeyCode::Char('k'), modifiers: ctrl, kind: KeyEventKind::Press };
    assert_eq!(combiner.transform(down), None);
    let repeat = KeyEvent { code: KeyCode::Char('k'), modifiers: ctrl, kind: KeyEventKind::Repeat };
    let expected = KeyCombination::new(OneToThree::One(KeyCode::Char('k')), ctrl);
    assert_eq!(combiner.transform(repeat), Some(expected));
    assert_eq!(combiner.transform(repeat), Some(expected));
    // the accumulator was kept: the release re-emits and clears
    let up = KeyEvent { code: KeyCode::Char('k'), modifiers: ctrl, kind: KeyEventKind::Release };
    assert_eq!(combiner.transform(up), Some(expected));
    assert_eq!(combiner.transform(up), None);
}

#[test]
fn combining_default_policy_pair_sequence() {
    // under the default immediate policy the first simple press cannot
    // wait for a companion key: it is flushed alone, and the second key
    // then forms its own accumulation, flushed at its release
    let mut combiner = combining_combiner();
    assert_eq!(combiner.transform(press('a')), Some(KeyCombination::from(KeyCode::Char('a'))));
    assert_eq!(combiner.transform(press('b')), Some(KeyCombination::from(KeyCode::Char('b'))));
    assert_eq!(combiner.transform(release('b')), None);
}

#[test]
fn combiner_state_transitions() {
    let mut combiner = Combiner::default();
    assert!(!combiner.is_combining());
    assert!(!combiner.enhancement_flags_pushed());
    combiner.note_enhancement_flags_pushed();
    assert!(combiner.is_combining());
    assert!(combiner.enhancement_flags_pushed());
    combiner.note_combining_disabled();
    assert!(!combiner.is_combining());
    assert!(!combiner.enhancement_flags_pushed());
}

#[test]
fn simple_keys() {
    assert!(is_key_simple(press('a')));
    assert!(!is_key_simple(press(' ')));
    let ctrl = KeyModifiers { ctrl: true, alt: false, shift: false, super_: false };
    let ev = KeyEvent { code: KeyCode::Char('a'), modifiers: ctrl, kind: KeyEventKind::Press };
    assert!(!is_key_simple(ev));
}
