use vstd::prelude::*;

use crate::key_code::{code_le, KeyCode};
use crate::key_code::key_code_le;
use vstd::multiset::Multiset;

verus! {

/// A non-empty collection of at most three values, used for the one to
/// three non-modifier keys of a combination.
#[derive(Debug, Clone, Copy, PartialEq, Eq, Hash, Structural)]
pub enum OneToThree<T> {
    One(T),
    Two(T, T),
    Three(T, T, T),
}

impl<T> View for OneToThree<T> {
    type V = Seq<T>;

    open spec fn view(&self) -> Seq<T> {
        match *self {
            OneToThree::One(a) => seq![a],
            OneToThree::Two(a, b) => seq![a, b],
            OneToThree::Three(a, b, c) => seq![a, b, c],
        }
    }
}

impl<T> OneToThree<T> {
    /// How many values are held: one, two or three.
    pub fn len(&self) -> (n: usize)
        ensures
            n == self@.len(),
            1 <= n <= 3,
    {
        match self {
            OneToThree::One(_) => 1,
            OneToThree::Two(_, _) => 2,
            OneToThree::Three(_, _, _) => 3,
        }
    }

    /// The first value.
    pub fn first(&self) -> (r: &T)
        ensures
            *r == self@[0],
    {
        match self {
            OneToThree::One(a) => a,
            OneToThree::Two(a, _) => a,
            OneToThree::Three(a, _, _) => a,
        }
    }

    /// The value at position `i`.
    pub fn get(&self, i: usize) -> (r: &T)
        requires
            i < self@.len(),
        ensures
            *r == self@[i as int],
    {
        match self {
            OneToThree::One(a) => a,
            OneToThree::Two(a, b) => if i == 0 {
                a
            } else {
                b
            },
            OneToThree::Three(a, b, c) => if i == 0 {
                a
            } else if i == 1 {
                b
            } else {
                c
            },
        }
    }
}

/// The values of a key-code collection rearranged into the fixed total
/// order over key codes.
pub open spec fn sorted_codes(codes: OneToThree<KeyCode>) -> OneToThree<KeyCode> {
    match codes {
        OneToThree::One(a) => OneToThree::One(a),
        OneToThree::Two(a, b) => if code_le(a, b) {
            OneToThree::Two(a, b)
        } else {
            OneToThree::Two(b, a)
        },
        OneToThree::Three(a, b, c) => if code_le(a, b) {
            if code_le(b, c) {
                OneToThree::Three(a, b, c)
            } else if code_le(a, c) {
                OneToThree::Three(a, c, b)
            } else {
                OneToThree::Three(c, a, b)
            }
        } else {
            if code_le(a, c) {
                OneToThree::Three(b, a, c)
            } else if code_le(b, c) {
                OneToThree::Three(b, c, a)
            } else {
                OneToThree::Three(c, b, a)
            }
        },
    }
}

/// Whether a sequence of key codes is ordered under the fixed total order.
pub open spec fn codes_sorted(s: Seq<KeyCode>) -> bool {
    forall|i: int, j: int| 0 <= i < j < s.len() ==> code_le(s[i], s[j])
}

/// Sorting yields an ordered rearrangement of the same key codes.
pub proof fn lemma_sorted_codes_ensures(codes: OneToThree<KeyCode>)
    ensures
        codes_sorted(sorted_codes(codes)@),
        sorted_codes(codes)@.to_multiset() == codes@.to_multiset(),
        sorted_codes(codes)@.len() == codes@.len(),
{
    broadcast use vstd::seq_lib::group_to_multiset_ensures;

    match codes {
        OneToThree::One(a) => {
            assert(sorted_codes(codes)@.to_multiset() =~= codes@.to_multiset());
        },
        OneToThree::Two(a, b) => {
            assert(codes@ =~= Seq::<KeyCode>::empty().push(a).push(b));
            assert(seq![b, a] =~= Seq::<KeyCode>::empty().push(b).push(a));
            assert(Seq::<KeyCode>::empty().push(a).push(b).to_multiset() =~= Seq::<
                KeyCode,
            >::empty().push(b).push(a).to_multiset());
            assert(sorted_codes(codes)@.to_multiset() =~= codes@.to_multiset());
        },
        OneToThree::Three(a, b, c) => {
            lemma_three_multiset(a, b, c);
            assert(sorted_codes(codes)@.to_multiset() =~= codes@.to_multiset());
        },
    }
}

/// All orderings of three values have the same multiset.
proof fn lemma_three_multiset(a: KeyCode, b: KeyCode, c: KeyCode)
    ensures
        seq![a, b, c].to_multiset() == seq![a, c, b].to_multiset(),
        seq![a, b, c].to_multiset() == seq![b, a, c].to_multiset(),
        seq![a, b, c].to_multiset() == seq![b, c, a].to_multiset(),
        seq![a, b, c].to_multiset() == seq![c, a, b].to_multiset(),
        seq![a, b, c].to_multiset() == seq![c, b, a].to_multiset(),
{
    broadcast use vstd::seq_lib::group_to_multiset_ensures;
    broadcast use vstd::multiset::group_multiset_axioms;

    assert forall|x: KeyCode, y: KeyCode, z: KeyCode|
        seq![x, y, z].to_multiset() == Multiset::<KeyCode>::empty().insert(x).insert(y).insert(
            z,
        ) by {
        assert(seq![x, y, z] =~= Seq::<KeyCode>::empty().push(x).push(y).push(z));
        assert(Seq::<KeyCode>::empty().to_multiset() =~= Multiset::<KeyCode>::empty());
        assert(Seq::<KeyCode>::empty().push(x).to_multiset() =~= Multiset::<
            KeyCode,
        >::empty().insert(x));
        assert(Seq::<KeyCode>::empty().push(x).push(y).to_multiset() =~= Multiset::<
            KeyCode,
        >::empty().insert(x).insert(y));
        assert(seq![x, y, z].to_multiset() =~= Multiset::<KeyCode>::empty().insert(x).insert(
            y,
        ).insert(z));
    }
    assert(Multiset::<KeyCode>::empty().insert(a).insert(b).insert(c) =~= Multiset::<
        KeyCode,
    >::empty().insert(a).insert(c).insert(b));
    assert(Multiset::<KeyCode>::empty().insert(a).insert(b).insert(c) =~= Multiset::<
        KeyCode,
    >::empty().insert(b).insert(a).insert(c));
    assert(Multiset::<KeyCode>::empty().insert(a).insert(b).insert(c) =~= Multiset::<
        KeyCode,
    >::empty().insert(b).insert(c).insert(a));
    assert(Multiset::<KeyCode>::empty().insert(a).insert(b).insert(c) =~= Multiset::<
        KeyCode,
    >::empty().insert(c).insert(a).insert(b));
    assert(Multiset::<KeyCode>::empty().insert(a).insert(b).insert(c) =~= Multiset::<
        KeyCode,
    >::empty().insert(c).insert(b).insert(a));
}

impl OneToThree<KeyCode> {
    /// The same key codes rearranged into the fixed total order.
    pub fn sorted(self) -> (r: OneToThree<KeyCode>)
        ensures
            r == sorted_codes(self),
    {
        match self {
            OneToThree::One(a) => OneToThree::One(a),
            OneToThree::Two(a, b) => if key_code_le(&a, &b) {
                OneToThree::Two(a, b)
            } else {
                OneToThree::Two(b, a)
            },
            OneToThree::Three(a, b, c) => if key_code_le(&a, &b) {
                if key_code_le(&b, &c) {
                    OneToThree::Three(a, b, c)
                } else if key_code_le(&a, &c) {
                    OneToThree::Three(a, c, b)
                } else {
                    OneToThree::Three(c, a, b)
                }
            } else {
                if key_code_le(&a, &c) {
                    OneToThree::Three(b, a, c)
                } else if key_code_le(&b, &c) {
                    OneToThree::Three(b, c, a)
                } else {
                    OneToThree::Three(c, b, a)
                }
            },
        }
    }
}

} // verus!
