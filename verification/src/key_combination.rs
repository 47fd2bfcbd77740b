use vstd::prelude::*;

use crate::key_code::KeyCode;
use crate::key_event::{KeyEvent, KeyEventKind, KeyModifiers};
use crate::one_to_three::{codes_sorted, lemma_sorted_codes_ensures, sorted_codes, OneToThree};
use crate::text::{is_ascii_lower, is_ascii_upper, to_ascii_upper};
use crate::text::{is_ascii_lower_char, is_ascii_upper_char, upper_char};
use vstd::multiset::Multiset;

verus! {

/// A key combination: one to three non-modifier keys held together, plus a
/// set of modifiers. Values are canonical: the codes are kept in the fixed
/// total order and the case of character keys agrees with the Shift flag.
#[derive(Debug, Clone, Copy, PartialEq, Eq, Hash, Structural)]
pub struct KeyCombination {
    pub codes: OneToThree<KeyCode>,
    pub modifiers: KeyModifiers,
}

/// The error of building a combination from no key events (or from more
/// than three of them).
#[derive(Debug, Clone, Copy, PartialEq, Eq, Structural)]
pub struct EmptyCombinationError;

/// A character key under Shift, with the character stored lowercase, is
/// rewritten to the uppercase character; every other code is unchanged.
pub open spec fn normalize_code(c: KeyCode, shift: bool) -> KeyCode {
    match c {
        KeyCode::Char(ch) => if shift && is_ascii_lower(ch) {
            KeyCode::Char(to_ascii_upper(ch))
        } else {
            c
        },
        _ => c,
    }
}

/// Whether a code stored as an uppercase character, without Shift among the
/// modifiers, forces the Shift flag on.
pub open spec fn code_forces_shift(c: KeyCode, shift: bool) -> bool {
    match c {
        KeyCode::Char(ch) => !shift && is_ascii_upper(ch),
        _ => false,
    }
}

/// Every code of the collection normalized against the Shift flag.
pub open spec fn normalize_codes(codes: OneToThree<KeyCode>, shift: bool) -> OneToThree<KeyCode> {
    match codes {
        OneToThree::One(a) => OneToThree::One(normalize_code(a, shift)),
        OneToThree::Two(a, b) => OneToThree::Two(normalize_code(a, shift), normalize_code(b, shift)),
        OneToThree::Three(a, b, c) => OneToThree::Three(
            normalize_code(a, shift),
            normalize_code(b, shift),
            normalize_code(c, shift),
        ),
    }
}

/// Whether any code of the collection forces the Shift flag on.
pub open spec fn any_forces_shift(codes: OneToThree<KeyCode>, shift: bool) -> bool {
    match codes {
        OneToThree::One(a) => code_forces_shift(a, shift),
        OneToThree::Two(a, b) => code_forces_shift(a, shift) || code_forces_shift(b, shift),
        OneToThree::Three(a, b, c) => code_forces_shift(a, shift) || code_forces_shift(b, shift)
            || code_forces_shift(c, shift),
    }
}

/// The normalized form of a combination: with Shift set, character keys are
/// stored uppercase; an uppercase character key in turn forces Shift on.
pub open spec fn spec_normalized(kc: KeyCombination) -> KeyCombination {
    let shift = kc.modifiers.shift;
    KeyCombination {
        codes: normalize_codes(kc.codes, shift),
        modifiers: if any_forces_shift(kc.codes, shift) {
            KeyModifiers { shift: true, ..kc.modifiers }
        } else {
            kc.modifiers
        },
    }
}

/// The canonical combination built from the given codes and modifiers: the
/// codes sorted under the fixed total order, then normalized.
pub open spec fn spec_new(codes: OneToThree<KeyCode>, modifiers: KeyModifiers) -> KeyCombination {
    spec_normalized(KeyCombination { codes: sorted_codes(codes), modifiers })
}

/// The union of the modifier sets of a sequence of key events.
pub open spec fn events_modifiers(events: Seq<KeyEvent>) -> KeyModifiers
    decreases events.len(),
{
    if events.len() == 0 {
        KeyModifiers::none()
    } else {
        events_modifiers(events.drop_last()).spec_union(events.last().modifiers)
    }
}

/// The canonical combination of a sequence of one to three key events: all
/// their codes, under the union of all their modifiers. Empty and oversized
/// sequences are refused.
pub open spec fn spec_try_from_events(events: Seq<KeyEvent>) -> Result<
    KeyCombination,
    EmptyCombinationError,
> {
    let m = events_modifiers(events);
    if events.len() == 1 {
        Ok(spec_new(OneToThree::One(events[0].code), m))
    } else if events.len() == 2 {
        Ok(spec_new(OneToThree::Two(events[0].code, events[1].code), m))
    } else if events.len() == 3 {
        Ok(spec_new(OneToThree::Three(events[0].code, events[1].code, events[2].code), m))
    } else {
        Err(EmptyCombinationError)
    }
}

/// Rewrite a lowercase character code to uppercase when Shift is among the
/// modifiers; report instead whether an uppercase character code forces
/// Shift on while Shift is absent.
pub fn normalize_key_code(code: &mut KeyCode, modifiers: KeyModifiers) -> (shift: bool)
    ensures
        *final(code) == normalize_code(*old(code), modifiers.shift),
        shift == code_forces_shift(*old(code), modifiers.shift),
{
    if modifiers.shift {
        if let KeyCode::Char(c) = *code {
            if is_ascii_lower_char(c) {
                *code = KeyCode::Char(upper_char(c));
            }
        }
        false
    } else {
        if let KeyCode::Char(c) = *code {
            is_ascii_upper_char(c)
        } else {
            false
        }
    }
}

impl KeyCombination {
    /// The canonical combination of the given codes and modifiers: sorts
    /// the codes, then normalizes character case against Shift.
    pub fn new(codes: OneToThree<KeyCode>, modifiers: KeyModifiers) -> (r: Self)
        ensures
            r == spec_new(codes, modifiers),
    {
        let raw = KeyCombination { codes: codes.sorted(), modifiers };
        raw.normalized()
    }

    /// A combination of a single key code and a set of modifiers, stored as
    /// given, without sorting or normalization.
    pub fn one_key(code: KeyCode, modifiers: KeyModifiers) -> (r: Self)
        ensures
            r == (KeyCombination { codes: OneToThree::One(code), modifiers }),
    {
        KeyCombination { codes: OneToThree::One(code), modifiers }
    }

    /// Legacy terminals cannot tell simultaneous key presses apart, so only
    /// combinations of a single key code can come out of them.
    pub fn is_ansi_compatible(self) -> (r: bool)
        ensures
            r == (self.codes is One),
    {
        matches!(self.codes, OneToThree::One(_))
    }

    /// The normalized version of the combination: with Shift present,
    /// character keys are stored uppercase; an uppercase character key in
    /// turn forces the Shift flag on.
    pub fn normalized(self) -> (r: Self)
        ensures
            r == spec_normalized(self),
    {
        let KeyCombination { codes, modifiers } = self;
        let (codes, force) = match codes {
            OneToThree::One(mut a) => {
                let fa = normalize_key_code(&mut a, modifiers);
                (OneToThree::One(a), fa)
            },
            OneToThree::Two(mut a, mut b) => {
                let fa = normalize_key_code(&mut a, modifiers);
                let fb = normalize_key_code(&mut b, modifiers);
                (OneToThree::Two(a, b), fa || fb)
            },
            OneToThree::Three(mut a, mut b, mut c) => {
                let fa = normalize_key_code(&mut a, modifiers);
                let fb = normalize_key_code(&mut b, modifiers);
                let fc = normalize_key_code(&mut c, modifiers);
                (OneToThree::Three(a, b, c), fa || fb || fc)
            },
        };
        let modifiers = if force {
            modifiers.with_shift()
        } else {
            modifiers
        };
        KeyCombination { codes, modifiers }
    }

    /// The raw character of a combination that is a single character key
    /// with no modifier.
    pub fn as_letter(self) -> (r: Option<char>)
        ensures
            r == spec_as_letter_combination(self),
    {
        match self {
            KeyCombination { codes: OneToThree::One(KeyCode::Char(l)), modifiers } => if modifiers.is_empty() {
                Some(l)
            } else {
                None
            },
            _ => None,
        }
    }

    /// The canonical combination of a sequence of one to three key events:
    /// all their codes, under the union of all their modifiers. Fails on an
    /// empty sequence, and on more than three events.
    pub fn try_from(key_events: &[KeyEvent]) -> (r: Result<Self, EmptyCombinationError>)
        ensures
            r == spec_try_from_events(key_events@),
    {
        let n = key_events.len();
        let mut modifiers = KeyModifiers::empty();
        for i in 0..n
            invariant
                n == key_events@.len(),
                modifiers == events_modifiers(key_events@.take(i as int)),
        {
            modifiers = modifiers.union(key_events[i].modifiers);
            proof {
                assert(key_events@.take(i + 1).drop_last() =~= key_events@.take(i as int));
                assert(key_events@.take(i + 1).last() == key_events@[i as int]);
            }
        }
        proof {
            assert(key_events@.take(n as int) =~= key_events@);
        }
        if n == 1 {
            Ok(Self::new(OneToThree::One(key_events[0].code), modifiers))
        } else if n == 2 {
            Ok(Self::new(OneToThree::Two(key_events[0].code, key_events[1].code), modifiers))
        } else if n == 3 {
            Ok(
                Self::new(
                    OneToThree::Three(
                        key_events[0].code,
                        key_events[1].code,
                        key_events[2].code,
                    ),
                    modifiers,
                ),
            )
        } else {
            Err(EmptyCombinationError)
        }
    }
}

/// The character of a combination that is a single modifier-free character
/// key, if any.
pub open spec fn spec_as_letter_combination(kc: KeyCombination) -> Option<char> {
    match kc.codes {
        OneToThree::One(code) => match code {
            KeyCode::Char(l) => if kc.modifiers == KeyModifiers::none() {
                Some(l)
            } else {
                None
            },
            _ => None,
        },
        _ => None,
    }
}

/// Law: two sorted key-code sequences of at most three elements holding
/// the same multiset are the same sequence.
proof fn lemma_sorted_unique(s: Seq<KeyCode>, t: Seq<KeyCode>)
    requires
        s.len() <= 3,
        codes_sorted(s),
        codes_sorted(t),
        s.to_multiset() == t.to_multiset(),
    ensures
        s == t,
{
    broadcast use vstd::seq_lib::group_to_multiset_ensures;
    broadcast use vstd::multiset::group_multiset_axioms;

    assert(s.len() == s.to_multiset().len());
    assert(t.len() == t.to_multiset().len());
    assert(s.len() == t.len());
    if s.len() == 0 {
        assert(s =~= t);
    } else if s.len() == 1 {
        assert(s.contains(s[0]));
        assert(t.to_multiset().count(s[0]) > 0);
        assert(t.contains(s[0]));
        assert(s =~= t);
    } else if s.len() == 2 {
        lemma_seq2_count(s, s[0]);
        lemma_seq2_count(s, s[1]);
        lemma_seq2_count(s, t[0]);
        lemma_seq2_count(s, t[1]);
        lemma_seq2_count(t, s[0]);
        lemma_seq2_count(t, s[1]);
        lemma_seq2_count(t, t[0]);
        lemma_seq2_count(t, t[1]);
        crate::key_code::lemma_code_le_total(s[0], s[1]);
        crate::key_code::lemma_code_le_total(t[0], t[1]);
        crate::key_code::lemma_code_le_total(s[0], t[0]);
        crate::key_code::lemma_code_le_total(s[1], t[1]);
        assert(s =~= t);
    } else {
        lemma_seq3_count(s, s[0]);
        lemma_seq3_count(s, s[1]);
        lemma_seq3_count(s, s[2]);
        lemma_seq3_count(s, t[0]);
        lemma_seq3_count(s, t[1]);
        lemma_seq3_count(s, t[2]);
        lemma_seq3_count(t, s[0]);
        lemma_seq3_count(t, s[1]);
        lemma_seq3_count(t, s[2]);
        lemma_seq3_count(t, t[0]);
        lemma_seq3_count(t, t[1]);
        lemma_seq3_count(t, t[2]);
        crate::key_code::lemma_code_le_total(s[0], s[1]);
        crate::key_code::lemma_code_le_total(s[1], s[2]);
        crate::key_code::lemma_code_le_total(s[0], s[2]);
        crate::key_code::lemma_code_le_total(t[0], t[1]);
        crate::key_code::lemma_code_le_total(t[1], t[2]);
        crate::key_code::lemma_code_le_total(t[0], t[2]);
        crate::key_code::lemma_code_le_total(s[0], t[0]);
        crate::key_code::lemma_code_le_total(s[1], t[1]);
        crate::key_code::lemma_code_le_total(s[2], t[2]);
        assert(s =~= t);
    }
}

/// How often an element occurs in a two-element sequence.
proof fn lemma_seq2_count(s: Seq<KeyCode>, x: KeyCode)
    requires
        s.len() == 2,
    ensures
        s.to_multiset().count(x) == (if s[0] == x {
            1int
        } else {
            0int
        }) + (if s[1] == x {
            1int
        } else {
            0int
        }),
{
    broadcast use vstd::seq_lib::group_to_multiset_ensures;
    broadcast use vstd::multiset::group_multiset_axioms;

    assert(s =~= Seq::<KeyCode>::empty().push(s[0]).push(s[1]));
    assert(Seq::<KeyCode>::empty().to_multiset() =~= Multiset::<KeyCode>::empty());
}

/// How often an element occurs in a three-element sequence.
proof fn lemma_seq3_count(s: Seq<KeyCode>, x: KeyCode)
    requires
        s.len() == 3,
    ensures
        s.to_multiset().count(x) == (if s[0] == x {
            1int
        } else {
            0int
        }) + (if s[1] == x {
            1int
        } else {
            0int
        }) + (if s[2] == x {
            1int
        } else {
            0int
        }),
{
    broadcast use vstd::seq_lib::group_to_multiset_ensures;
    broadcast use vstd::multiset::group_multiset_axioms;

    assert(s =~= Seq::<KeyCode>::empty().push(s[0]).push(s[1]).push(s[2]));
    assert(Seq::<KeyCode>::empty().to_multiset() =~= Multiset::<KeyCode>::empty());
}

/// Law: building a combination from the same multiset of key codes, in any
/// input order, yields the very same value, stored order included.
pub proof fn lemma_sort_invariant(
    a: OneToThree<KeyCode>,
    b: OneToThree<KeyCode>,
    m: KeyModifiers,
)
    requires
        a@.to_multiset() == b@.to_multiset(),
    ensures
        spec_new(a, m) == spec_new(b, m),
{
    lemma_sorted_codes_ensures(a);
    lemma_sorted_codes_ensures(b);
    lemma_sorted_unique(sorted_codes(a)@, sorted_codes(b)@);
    assert(sorted_codes(a) == sorted_codes(b)) by {
        let sa = sorted_codes(a);
        let sb = sorted_codes(b);
        assert(sa@ == sb@);
        match (sa, sb) {
            (OneToThree::One(x), OneToThree::One(y)) => {
                assert(sa@[0] == sb@[0]);
            },
            (OneToThree::Two(x0, x1), OneToThree::Two(y0, y1)) => {
                assert(sa@[0] == sb@[0] && sa@[1] == sb@[1]);
            },
            (OneToThree::Three(x0, x1, x2), OneToThree::Three(y0, y1, y2)) => {
                assert(sa@[0] == sb@[0] && sa@[1] == sb@[1] && sa@[2] == sb@[2]);
            },
            _ => {
                assert(sa@.len() == sb@.len());
            },
        }
    }
}

/// Law: a normalized combination of a single letter key carries the Shift
/// modifier exactly when the stored letter is uppercase.
pub proof fn lemma_normalization_invariant(kc: KeyCombination, c: char)
    requires
        kc.codes == OneToThree::One(KeyCode::Char(c)),
        is_ascii_lower(c) || is_ascii_upper(c),
    ensures
        ({
            let n = spec_normalized(kc);
            &&& n.codes matches OneToThree::One(code)
            &&& code matches KeyCode::Char(stored)
            &&& n.modifiers.shift <==> is_ascii_upper(stored)
        }),
{
}

impl From<KeyEvent> for KeyCombination {
    /// The normalized single-code combination of one key event.
    fn from(key_event: KeyEvent) -> (r: Self) {
        let raw = KeyCombination {
            codes: OneToThree::One(key_event.code),
            modifiers: key_event.modifiers,
        };
        raw.normalized()
    }
}

impl vstd::std_specs::convert::FromSpecImpl<KeyEvent> for KeyCombination {
    open spec fn obeys_from_spec() -> bool {
        true
    }

    open spec fn from_spec(v: KeyEvent) -> Self {
        spec_normalized(
            KeyCombination { codes: OneToThree::One(v.code), modifiers: v.modifiers },
        )
    }
}

impl From<KeyCode> for KeyCombination {
    /// The combination of one key code alone, stored as given.
    fn from(key_code: KeyCode) -> (r: Self) {
        KeyCombination { codes: OneToThree::One(key_code), modifiers: KeyModifiers::empty() }
    }
}

impl vstd::std_specs::convert::FromSpecImpl<KeyCode> for KeyCombination {
    open spec fn obeys_from_spec() -> bool {
        true
    }

    open spec fn from_spec(v: KeyCode) -> Self {
        KeyCombination { codes: OneToThree::One(v), modifiers: KeyModifiers::none() }
    }
}

impl From<KeyCombination> for KeyEvent {
    /// The lossy conversion to a single legacy press event: only the first
    /// code, by sort order, is kept.
    fn from(kc: KeyCombination) -> (r: Self) {
        KeyEvent { code: *kc.codes.first(), modifiers: kc.modifiers, kind: KeyEventKind::Press }
    }
}

impl vstd::std_specs::convert::FromSpecImpl<KeyCombination> for KeyEvent {
    open spec fn obeys_from_spec() -> bool {
        true
    }

    open spec fn from_spec(v: KeyCombination) -> Self {
        KeyEvent { code: v.codes@[0], modifiers: v.modifiers, kind: KeyEventKind::Press }
    }
}

} // verus!
