use vstd::prelude::*;

use crate::key_code::KeyCode;
use crate::key_combination::{spec_new, spec_normalized, spec_try_from_events, KeyCombination};
use crate::key_event::{KeyEvent, KeyEventKind, KeyModifiers};
use crate::one_to_three::OneToThree;

verus! {

/// The maximum number of non-modifier keys of one combination; bounded by
/// what the combination type can hold.
pub const MAX_PRESS_COUNT: usize = 3;

/// Consumes raw key events and combines them into key combinations.
///
/// In the disabled (legacy) state every press is reported alone, at once.
/// In the combining state, available under the enhanced keyboard protocol,
/// concurrently held keys accumulate and are reported as one combination.
///
/// The terminal itself is driven by the caller: switching the state here
/// only records what the terminal was asked to do.
#[derive(Debug)]
pub struct Combiner {
    combining: bool,
    keyboard_enhancement_flags_pushed: bool,
    mandate_modifier_for_multiple_keys: bool,
    down_keys: Vec<KeyEvent>,
    shift_pressed: bool,
}

/// The abstract state of a [`Combiner`].
pub struct CombinerModel {
    pub combining: bool,
    pub keyboard_enhancement_flags_pushed: bool,
    pub mandate_modifier_for_multiple_keys: bool,
    pub down_keys: Seq<KeyEvent>,
    pub shift_pressed: bool,
}

impl CombinerModel {
    /// At rest the accumulator never holds more than two keys: reaching
    /// three flushes it at once.
    pub open spec fn wf(self) -> bool {
        self.down_keys.len() <= 2
    }

    /// The state of a freshly created combiner: legacy mode, the immediate
    /// single-key policy on, nothing accumulated.
    pub open spec fn initial() -> CombinerModel {
        CombinerModel {
            combining: false,
            keyboard_enhancement_flags_pushed: false,
            mandate_modifier_for_multiple_keys: true,
            down_keys: Seq::empty(),
            shift_pressed: false,
        }
    }
}

impl View for Combiner {
    type V = CombinerModel;

    closed spec fn view(&self) -> CombinerModel {
        CombinerModel {
            combining: self.combining,
            keyboard_enhancement_flags_pushed: self.keyboard_enhancement_flags_pushed,
            mandate_modifier_for_multiple_keys: self.mandate_modifier_for_multiple_keys,
            down_keys: self.down_keys@,
            shift_pressed: self.shift_pressed,
        }
    }
}

/// A key is "simple" when it comes with no modifier and is not the space
/// key; simple keys may be reported immediately on press.
pub open spec fn spec_is_key_simple(key: KeyEvent) -> bool {
    key.modifiers == KeyModifiers::none() && key.code != KeyCode::Char(' ')
}

/// Whether a key is "simple": pressed with no modifier and not the space key.
pub fn is_key_simple(key: KeyEvent) -> (r: bool)
    ensures
        r == spec_is_key_simple(key),
{
    key.modifiers.is_empty() && key.code != KeyCode::Char(' ')
}

/// The combination of everything currently accumulated: all down keys, under
/// the union of their modifiers, plus Shift when the Shift key is held; an
/// empty accumulator yields nothing.
pub open spec fn spec_combined(m: CombinerModel) -> Option<KeyCombination> {
    match spec_try_from_events(m.down_keys) {
        Ok(kc) => Some(
            if m.shift_pressed {
                KeyCombination {
                    codes: kc.codes,
                    modifiers: KeyModifiers { shift: true, ..kc.modifiers },
                }
            } else {
                kc
            },
        ),
        Err(_) => None,
    }
}

/// The same state with the accumulator and the held-Shift flag cleared.
pub open spec fn spec_cleared(m: CombinerModel) -> CombinerModel {
    CombinerModel { down_keys: Seq::empty(), shift_pressed: false, ..m }
}

/// One step of the combiner in the combining state, as described for the
/// enhanced keyboard protocol: standalone Shift keys toggle the held-Shift
/// flag; presses accumulate and flush on the cap or on an isolated simple
/// key; a release flushes and clears; a repeat re-reports without clearing.
pub open spec fn spec_transform_combining(m: CombinerModel, key: KeyEvent) -> (
    CombinerModel,
    Option<KeyCombination>,
) {
    match key.code {
        KeyCode::Modifier(mk) => {
            let m2 = if mk == crate::key_code::ModifierKeyCode::LeftShift || mk
                == crate::key_code::ModifierKeyCode::RightShift {
                CombinerModel { shift_pressed: key.kind != KeyEventKind::Release, ..m }
            } else {
                m
            };
            (m2, None)
        },
        _ => match key.kind {
            KeyEventKind::Press => {
                let pushed = CombinerModel { down_keys: m.down_keys.push(key), ..m };
                if (m.mandate_modifier_for_multiple_keys && spec_is_key_simple(key)
                    && !m.shift_pressed && pushed.down_keys.len() == 1) || pushed.down_keys.len()
                    == MAX_PRESS_COUNT {
                    (spec_cleared(pushed), spec_combined(pushed))
                } else {
                    (pushed, None)
                }
            },
            KeyEventKind::Release => (spec_cleared(m), spec_combined(m)),
            KeyEventKind::Repeat => (m, spec_combined(m)),
        },
    }
}

/// One step of the combiner in the disabled (legacy) state: every press is
/// reported alone at once; releases and repeats are discarded.
pub open spec fn spec_transform_ansi(m: CombinerModel, key: KeyEvent) -> (
    CombinerModel,
    Option<KeyCombination>,
) {
    match key.kind {
        KeyEventKind::Press => (
            m,
            Some(
                spec_normalized(
                    KeyCombination {
                        codes: OneToThree::One(key.code),
                        modifiers: key.modifiers,
                    },
                ),
            ),
        ),
        _ => (m, None),
    }
}

/// One step of the combiner.
pub open spec fn spec_transform(m: CombinerModel, key: KeyEvent) -> (
    CombinerModel,
    Option<KeyCombination>,
) {
    if m.combining {
        spec_transform_combining(m, key)
    } else {
        spec_transform_ansi(m, key)
    }
}

impl Default for Combiner {
    /// A fresh combiner: legacy mode, immediate single-key policy on.
    fn default() -> (r: Combiner)
        ensures
            r@ == CombinerModel::initial(),
    {
        let r = Combiner {
            combining: false,
            keyboard_enhancement_flags_pushed: false,
            mandate_modifier_for_multiple_keys: true,
            down_keys: Vec::new(),
            shift_pressed: false,
        };
        proof {
            assert(r@.down_keys =~= Seq::<KeyEvent>::empty());
        }
        r
    }
}

impl Combiner {
    /// Whether key combining is currently enabled.
    pub fn is_combining(&self) -> (r: bool)
        ensures
            r == self@.combining,
    {
        self.combining
    }

    /// Whether this combiner asked the terminal for the enhanced keyboard
    /// protocol and has not yet asked it to restore its normal state.
    pub fn enhancement_flags_pushed(&self) -> (r: bool)
        ensures
            r == self@.keyboard_enhancement_flags_pushed,
    {
        self.keyboard_enhancement_flags_pushed
    }

    /// Record that the keyboard enhancement flags were pushed to the
    /// terminal: combining is now on, and disposal must restore the
    /// terminal.
    pub fn note_enhancement_flags_pushed(&mut self)
        ensures
            final(self)@ == (CombinerModel {
                combining: true,
                keyboard_enhancement_flags_pushed: true,
                ..old(self)@
            }),
    {
        self.keyboard_enhancement_flags_pushed = true;
        self.combining = true;
    }

    /// Record that the keyboard enhancement flags were popped (or were
    /// never pushed): combining is now off.
    pub fn note_combining_disabled(&mut self)
        ensures
            final(self)@ == (CombinerModel {
                combining: false,
                keyboard_enhancement_flags_pushed: false,
                ..old(self)@
            }),
    {
        self.keyboard_enhancement_flags_pushed = false;
        self.combining = false;
    }

    /// When combining is enabled, choose whether an isolated simple key is
    /// reported at once on press (on by default, snappier) or only on
    /// release (so that it may still become part of a multi-key
    /// combination).
    pub fn set_mandate_modifier_for_multiple_keys(&mut self, mandate: bool)
        ensures
            final(self)@ == (CombinerModel {
                mandate_modifier_for_multiple_keys: mandate,
                ..old(self)@
            }),
    {
        self.mandate_modifier_for_multiple_keys = mandate;
    }

    /// Take everything accumulated and combine it into a key combination;
    /// with `clear` the accumulator and the held-Shift flag are reset.
    fn combine(&mut self, clear: bool) -> (r: Option<KeyCombination>)
        ensures
            r == spec_combined(old(self)@),
            final(self)@ == if clear {
                spec_cleared(old(self)@)
            } else {
                old(self)@
            },
    {
        let key_combination = match KeyCombination::try_from(self.down_keys.as_slice()) {
            Ok(kc) => Some(
                if self.shift_pressed {
                    KeyCombination { codes: kc.codes, modifiers: kc.modifiers.with_shift() }
                } else {
                    kc
                },
            ),
            Err(_) => None,
        };
        if clear {
            self.down_keys.clear();
            self.shift_pressed = false;
            proof {
                assert(self@.down_keys =~= Seq::<KeyEvent>::empty());
            }
        }
        key_combination
    }

    /// Receive one raw key event and return the key combination it
    /// completes, if any, following the transition rules of the current
    /// state.
    pub fn transform(&mut self, key: KeyEvent) -> (r: Option<KeyCombination>)
        ensures
            old(self)@.wf() ==> final(self)@.wf(),
            (final(self)@, r) == spec_transform(old(self)@, key),
    {
        if self.combining {
            self.transform_combining(key)
        } else {
            self.transform_ansi(key)
        }
    }

    /// One step in the combining state.
    fn transform_combining(&mut self, key: KeyEvent) -> (r: Option<KeyCombination>)
        requires
            old(self)@.combining,
        ensures
            old(self)@.wf() ==> final(self)@.wf(),
            (final(self)@, r) == spec_transform_combining(old(self)@, key),
    {
        if let KeyCode::Modifier(modifier) = key.code {
            if modifier == crate::key_code::ModifierKeyCode::LeftShift || modifier
                == crate::key_code::ModifierKeyCode::RightShift {
                self.shift_pressed = !matches!(key.kind, KeyEventKind::Release);
            }
            // modifier keys are never reported as combinations of their own
            return None;
        }
        match key.kind {
            KeyEventKind::Press => {
                self.down_keys.push(key);
                if (self.mandate_modifier_for_multiple_keys && is_key_simple(key)
                    && !self.shift_pressed && self.down_keys.len() == 1) || self.down_keys.len()
                    == MAX_PRESS_COUNT {
                    self.combine(true)
                } else {
                    None
                }
            },
            KeyEventKind::Release => self.combine(true),
            KeyEventKind::Repeat => self.combine(false),
        }
    }

    /// One step in the legacy state: no combining is possible, and nothing
    /// but plain presses is expected; anything else is filtered out.
    fn transform_ansi(&mut self, key: KeyEvent) -> (r: Option<KeyCombination>)
        ensures
            final(self)@ == old(self)@,
            (final(self)@, r) == spec_transform_ansi(old(self)@, key),
    {
        match key.kind {
            KeyEventKind::Press => Some(KeyCombination::from(key)),
            _ => None,
        }
    }
}

/// Law: in the disabled (legacy) state the combiner is stateless; every
/// press yields exactly one single-code combination, and releases and
/// repeats never yield anything.
pub proof fn lemma_legacy_mode(m: CombinerModel, key: KeyEvent)
    requires
        !m.combining,
    ensures
        spec_transform(m, key).0 == m,
        key.kind == KeyEventKind::Press ==> {
            let out = spec_transform(m, key).1;
            &&& out matches Some(kc)
            &&& kc.codes is One
        },
        key.kind != KeyEventKind::Press ==> spec_transform(m, key).1 is None,
{
}

/// Law: with combining on and the default immediate policy, pressing a
/// single unmodified, non-space key on a fresh accumulator yields its
/// combination at once, on the press itself, and leaves the accumulator
/// fresh again.
pub proof fn lemma_immediate_simple_press(m: CombinerModel, key: KeyEvent)
    requires
        m.combining,
        m.mandate_modifier_for_multiple_keys,
        m.down_keys.len() == 0,
        !m.shift_pressed,
        key.kind == KeyEventKind::Press,
        spec_is_key_simple(key),
        !(key.code is Modifier),
    ensures
        spec_transform(m, key).1 == Some(
            spec_new(OneToThree::One(key.code), KeyModifiers::none()),
        ),
        spec_transform(m, key).0.down_keys.len() == 0,
{
    let pushed = m.down_keys.push(key);
    assert(pushed.len() == 1);
    assert(pushed[0] == key);
    assert(crate::key_combination::events_modifiers(pushed) == KeyModifiers::none()
        .spec_union(key.modifiers)) by {
        assert(pushed.drop_last() =~= Seq::<KeyEvent>::empty());
        assert(crate::key_combination::events_modifiers(Seq::<KeyEvent>::empty())
            == KeyModifiers::none());
        assert(pushed.last() == key);
    }
    assert(KeyModifiers::none().spec_union(key.modifiers) == KeyModifiers::none());
}

/// Law: with combining on and the immediate policy off, pressing three
/// distinct simple keys yields nothing on the first two presses and exactly
/// one three-code combination on the third; the following release yields
/// nothing further.
pub proof fn lemma_combiner_cap(
    m: CombinerModel,
    e1: KeyEvent,
    e2: KeyEvent,
    e3: KeyEvent,
    er: KeyEvent,
)
    requires
        m.combining,
        !m.mandate_modifier_for_multiple_keys,
        m.down_keys.len() == 0,
        e1.kind == KeyEventKind::Press,
        e2.kind == KeyEventKind::Press,
        e3.kind == KeyEventKind::Press,
        spec_is_key_simple(e1),
        spec_is_key_simple(e2),
        spec_is_key_simple(e3),
        !(e1.code is Modifier),
        !(e2.code is Modifier),
        !(e3.code is Modifier),
        e1.code != e2.code,
        e1.code != e3.code,
        e2.code != e3.code,
        er.kind == KeyEventKind::Release,
        !(er.code is Modifier),
    ensures
        ({
            let (m1, o1) = spec_transform(m, e1);
            let (m2, o2) = spec_transform(m1, e2);
            let (m3, o3) = spec_transform(m2, e3);
            let (m4, o4) = spec_transform(m3, er);
            &&& o1 is None
            &&& o2 is None
            &&& o3 matches Some(kc) && kc.codes is Three
            &&& o4 is None
        }),
{
    let (m1, o1) = spec_transform(m, e1);
    let (m2, o2) = spec_transform(m1, e2);
    let (m3, o3) = spec_transform(m2, e3);
    assert(m1.down_keys =~= m.down_keys.push(e1));
    assert(m2.down_keys =~= m.down_keys.push(e1).push(e2));
    let full = m2.down_keys.push(e3);
    assert(full.len() == 3);
    assert(spec_try_from_events(full) matches Ok(kc) && kc.codes is Three) by {
        let codes = OneToThree::Three(full[0].code, full[1].code, full[2].code);
        assert(crate::one_to_three::sorted_codes(codes) is Three);
        assert(spec_new(codes, crate::key_combination::events_modifiers(full)).codes is Three);
    }
    assert(m3.down_keys.len() == 0);
}

} // verus!
