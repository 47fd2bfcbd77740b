use vstd::prelude::*;

use crate::format::{spec_format, spec_format_code, spec_format_codes, spec_prefixes, KeyCombinationFormat};
use crate::key_code::{code_le, KeyCode};
use crate::key_combination::{
    any_forces_shift, normalize_code, normalize_codes, spec_new, KeyCombination,
};
use crate::key_event::KeyModifiers;
use crate::one_to_three::{codes_sorted, sorted_codes, OneToThree};
use crate::parse::{
    lemma_split_dash_len, spec_parse, spec_parse_key_code, spec_parse_tokens, split_dash,
    starts_alt, starts_ctrl, starts_shift, strip_modifiers,
};
use crate::text::{is_ascii_lower, is_ascii_upper, lowered, to_ascii_lower};

verus! {

/// Whether a named key belongs to the parser's vocabulary.
pub open spec fn parseable_named(c: KeyCode) -> bool {
    match c {
        KeyCode::Backspace => true,
        KeyCode::Enter => true,
        KeyCode::Left => true,
        KeyCode::Right => true,
        KeyCode::Up => true,
        KeyCode::Down => true,
        KeyCode::Home => true,
        KeyCode::End => true,
        KeyCode::PageUp => true,
        KeyCode::PageDown => true,
        KeyCode::Tab => true,
        KeyCode::BackTab => true,
        KeyCode::Delete => true,
        KeyCode::Insert => true,
        KeyCode::Esc => true,
        KeyCode::F(n) => 1 <= n <= 24,
        _ => false,
    }
}

/// Whether one code survives rendering and re-parsing under the given
/// Shift flag: a named key of the parser's vocabulary, or an ASCII
/// character other than carriage return and line feed (those render as the
/// enter label and re-parse as the enter key), in the case the Shift flag
/// dictates.
pub open spec fn round_trippable_code(c: KeyCode, shift: bool) -> bool {
    match c {
        KeyCode::Char(ch) => {
            &&& (ch as u32) < 128
            &&& ch != '\r'
            &&& ch != '\n'
            &&& (shift ==> !is_ascii_lower(ch))
            &&& (!shift ==> !is_ascii_upper(ch))
        },
        _ => parseable_named(c),
    }
}

/// The combinations the parser can produce and read back: modifiers among
/// Ctrl, Alt and Shift; every code renderable and re-parseable; Shift
/// present whenever BackTab is (terminals always report them together, and
/// the parser forces it); and the codes in sorted order.
pub open spec fn round_trippable(kc: KeyCombination) -> bool {
    &&& !kc.modifiers.super_
    &&& codes_sorted(kc.codes@)
    &&& forall|i: int|
        0 <= i < kc.codes@.len() ==> round_trippable_code(
            #[trigger] kc.codes@[i],
            kc.modifiers.shift,
        )
    &&& kc.codes@.contains(KeyCode::BackTab) ==> kc.modifiers.shift
}

/// The default rendering of a combination, a specification value: what the
/// default format produces.
pub open spec fn is_default_format(fmt: KeyCombinationFormat) -> bool {
    &&& fmt.control@ == "Ctrl-"@
    &&& fmt.command@ == "Cmd-"@
    &&& fmt.alt@ == "Alt-"@
    &&& fmt.shift@ == "Shift-"@
    &&& fmt.enter@ == "Enter"@
    &&& fmt.uppercase_shift == false
    &&& fmt.key_separator@ == "-"@
}

/// A token that cannot open a modifier prefix, whatever follows it: it is
/// non-empty, free of `-`, and spells none of the modifier names.
pub open spec fn token_safe(t: Seq<char>) -> bool {
    &&& t.len() >= 1
    &&& forall|i: int| 0 <= i < t.len() ==> t[i] != '-'
    &&& t != seq!['c', 't', 'r', 'l']
    &&& t != seq!['a', 'l', 't']
    &&& t != seq!['s', 'h', 'i', 'f', 't']
}

/// A safe token followed by nothing, or by a separator and more text,
/// never opens a modifier prefix.
proof fn lemma_token_concat_safe(t: Seq<char>, x: Seq<char>)
    requires
        token_safe(t),
        x.len() == 0 || x[0] == '-',
    ensures
        !starts_ctrl(t + x),
        !starts_alt(t + x),
        !starts_shift(t + x),
{
    let s = t + x;
    assert(forall|i: int| 0 <= i < t.len() ==> s[i] == t[i]);
    assert(forall|i: int| t.len() <= i < s.len() ==> s[i] == x[i - t.len()]);
    if starts_ctrl(s) {
        if t.len() == 4 {
            assert(t =~= seq!['c', 't', 'r', 'l']);
        } else if t.len() >= 5 {
            assert(s[4] == t[4]);
        } else {
            assert(t.len() <= 3);
            assert(s[t.len() as int] == x[0]);
        }
        assert(false);
    }
    if starts_alt(s) {
        if t.len() == 3 {
            assert(t =~= seq!['a', 'l', 't']);
        } else if t.len() >= 4 {
            assert(s[3] == t[3]);
        } else {
            assert(s[t.len() as int] == x[0]);
        }
        assert(false);
    }
    if starts_shift(s) {
        if t.len() == 5 {
            assert(t =~= seq!['s', 'h', 'i', 'f', 't']);
        } else if t.len() >= 6 {
            assert(s[5] == t[5]);
        } else {
            assert(s[t.len() as int] == x[0]);
        }
        assert(false);
    }
}

/// Splitting a sequence that opens with a separator-free part keeps that
/// part in front of the split of the rest.
proof fn lemma_split_prepend(t: Seq<char>, s: Seq<char>)
    requires
        forall|i: int| 0 <= i < t.len() ==> t[i] != '-',
    ensures
        split_dash(t + s) == seq![t + split_dash(s)[0]] + split_dash(s).drop_first(),
    decreases t.len(),
{
    lemma_split_dash_len(s);
    if t.len() == 0 {
        assert(t + s =~= s);
        assert(t + split_dash(s)[0] =~= split_dash(s)[0]);
        assert(seq![split_dash(s)[0]] + split_dash(s).drop_first() =~= split_dash(s));
    } else {
        let td = t.drop_first();
        assert((t + s)[0] == t[0]);
        assert((t + s).drop_first() =~= td + s);
        lemma_split_prepend(td, s);
        assert(split_dash(t + s) == seq![seq![t[0]] + split_dash(td + s)[0]] + split_dash(
            td + s,
        ).drop_first());
        assert(seq![t[0]] + (td + split_dash(s)[0]) =~= t + split_dash(s)[0]);
        assert(split_dash(td + s).drop_first() =~= split_dash(s).drop_first());
    }
}

/// Splitting one safe token alone yields that token.
proof fn lemma_split_one(t: Seq<char>)
    requires
        forall|i: int| 0 <= i < t.len() ==> t[i] != '-',
    ensures
        split_dash(t) == seq![t],
{
    lemma_split_prepend(t, Seq::<char>::empty());
    assert(t + Seq::<char>::empty() =~= t);
    assert(t + split_dash(Seq::<char>::empty())[0] =~= t);
    assert(seq![t] + split_dash(Seq::<char>::empty()).drop_first() =~= seq![t]);
}

/// Splitting safe tokens joined by one separator yields the two tokens.
proof fn lemma_split_two(t1: Seq<char>, t2: Seq<char>)
    requires
        forall|i: int| 0 <= i < t1.len() ==> t1[i] != '-',
        forall|i: int| 0 <= i < t2.len() ==> t2[i] != '-',
    ensures
        split_dash(t1 + seq!['-'] + t2) == seq![t1, t2],
{
    let tail = seq!['-'] + t2;
    assert(tail[0] == '-');
    assert(tail.drop_first() =~= t2);
    lemma_split_one(t2);
    assert(split_dash(tail) == seq![Seq::<char>::empty()] + seq![t2]);
    lemma_split_prepend(t1, tail);
    assert(t1 + seq!['-'] + t2 =~= t1 + tail);
    assert(t1 + split_dash(tail)[0] =~= t1);
    assert(split_dash(t1 + tail) =~= seq![t1, t2]);
}

/// Splitting safe tokens joined by two separators yields the three tokens.
proof fn lemma_split_three(t1: Seq<char>, t2: Seq<char>, t3: Seq<char>)
    requires
        forall|i: int| 0 <= i < t1.len() ==> t1[i] != '-',
        forall|i: int| 0 <= i < t2.len() ==> t2[i] != '-',
        forall|i: int| 0 <= i < t3.len() ==> t3[i] != '-',
    ensures
        split_dash(t1 + seq!['-'] + t2 + seq!['-'] + t3) == seq![t1, t2, t3],
{
    let tail2 = seq!['-'] + t3;
    assert(tail2[0] == '-');
    assert(tail2.drop_first() =~= t3);
    lemma_split_one(t3);
    assert(split_dash(tail2) == seq![Seq::<char>::empty()] + seq![t3]);
    lemma_split_prepend(t2, tail2);
    assert(t2 + split_dash(tail2)[0] =~= t2);
    assert(split_dash(t2 + tail2) =~= seq![t2, t3]);
    let tail1 = seq!['-'] + (t2 + tail2);
    assert(tail1[0] == '-');
    assert(tail1.drop_first() =~= t2 + tail2);
    assert(split_dash(tail1) == seq![Seq::<char>::empty()] + seq![t2, t3]);
    lemma_split_prepend(t1, tail1);
    assert(t1 + split_dash(tail1)[0] =~= t1);
    assert(t1 + seq!['-'] + t2 + seq!['-'] + t3 =~= t1 + tail1);
    assert(split_dash(t1 + tail1) =~= seq![t1, t2, t3]);
}

/// Stripping `ctrl-` from the front advances past it.
proof fn lemma_strip_ctrl(s: Seq<char>, m: KeyModifiers)
    ensures
        strip_modifiers(seq!['c', 't', 'r', 'l', '-'] + s, m) == strip_modifiers(
            s,
            KeyModifiers { ctrl: true, ..m },
        ),
{
    let p = seq!['c', 't', 'r', 'l', '-'] + s;
    assert(starts_ctrl(p));
    assert(p.skip(5) =~= s);
}

/// Stripping nothing: with no prefix in front, the input stands.
proof fn lemma_strip_none(s: Seq<char>, m: KeyModifiers)
    requires
        !starts_ctrl(s),
        !starts_alt(s),
        !starts_shift(s),
    ensures
        strip_modifiers(s, m) == (s, m),
{
}

/// Stripping `alt-` from the front advances past it.
proof fn lemma_strip_alt(s: Seq<char>, m: KeyModifiers)
    ensures
        strip_modifiers(seq!['a', 'l', 't', '-'] + s, m) == strip_modifiers(
            s,
            KeyModifiers { alt: true, ..m },
        ),
{
    let p = seq!['a', 'l', 't', '-'] + s;
    assert(starts_alt(p));
    assert(p.skip(4) =~= s);
}

/// Stripping `shift-` from the front advances past it.
proof fn lemma_strip_shift(s: Seq<char>, m: KeyModifiers)
    ensures
        strip_modifiers(seq!['s', 'h', 'i', 'f', 't', '-'] + s, m) == strip_modifiers(
            s,
            KeyModifiers { shift: true, ..m },
        ),
{
    let p = seq!['s', 'h', 'i', 'f', 't', '-'] + s;
    assert(starts_shift(p));
    assert(p.skip(6) =~= s);
}


/// Law, token level: the default rendering of one round-trippable code,
/// lowercased, reads back as exactly that code, and is a safe token.
#[verifier::rlimit(100)]
#[verifier::spinoff_prover]
proof fn lemma_token_roundtrip(c: KeyCode, shift: bool)
    requires
        round_trippable_code(c, shift),
    ensures
        ({
            let t = lowered(spec_format_code(c, false, "Enter"@));
            &&& spec_parse_key_code(t, shift) == Some(c)
            &&& token_safe(t)
        }),
{
    reveal_strlit("esc");
    reveal_strlit("enter");
    reveal_strlit("left");
    reveal_strlit("right");
    reveal_strlit("up");
    reveal_strlit("down");
    reveal_strlit("home");
    reveal_strlit("end");
    reveal_strlit("pageup");
    reveal_strlit("pagedown");
    reveal_strlit("backtab");
    reveal_strlit("backspace");
    reveal_strlit("del");
    reveal_strlit("delete");
    reveal_strlit("insert");
    reveal_strlit("ins");
    reveal_strlit("f1");
    reveal_strlit("f2");
    reveal_strlit("f3");
    reveal_strlit("f4");
    reveal_strlit("f5");
    reveal_strlit("f6");
    reveal_strlit("f7");
    reveal_strlit("f8");
    reveal_strlit("f9");
    reveal_strlit("f10");
    reveal_strlit("f11");
    reveal_strlit("f12");
    reveal_strlit("f13");
    reveal_strlit("f14");
    reveal_strlit("f15");
    reveal_strlit("f16");
    reveal_strlit("f17");
    reveal_strlit("f18");
    reveal_strlit("f19");
    reveal_strlit("f20");
    reveal_strlit("f21");
    reveal_strlit("f22");
    reveal_strlit("f23");
    reveal_strlit("f24");
    reveal_strlit("space");
    reveal_strlit("hyphen");
    reveal_strlit("minus");
    reveal_strlit("tab");
    reveal_strlit("Backspace");
    reveal_strlit("Left");
    reveal_strlit("Right");
    reveal_strlit("Up");
    reveal_strlit("Down");
    reveal_strlit("Home");
    reveal_strlit("End");
    reveal_strlit("PageUp");
    reveal_strlit("PageDown");
    reveal_strlit("Tab");
    reveal_strlit("BackTab");
    reveal_strlit("Delete");
    reveal_strlit("Insert");
    reveal_strlit("Esc");
    reveal_strlit("Space");
    reveal_strlit("Hyphen");
    reveal_strlit("Enter");
    assert("esc"@[0] == 'e');
    assert("esc"@[1] == 's');
    assert("esc"@[2] == 'c');
    assert("enter"@[0] == 'e');
    assert("enter"@[1] == 'n');
    assert("enter"@[2] == 't');
    assert("left"@[0] == 'l');
    assert("left"@[1] == 'e');
    assert("left"@[2] == 'f');
    assert("right"@[0] == 'r');
    assert("right"@[1] == 'i');
    assert("right"@[2] == 'g');
    assert("up"@[0] == 'u');
    assert("up"@[1] == 'p');
    assert("down"@[0] == 'd');
    assert("down"@[1] == 'o');
    assert("down"@[2] == 'w');
    assert("home"@[0] == 'h');
    assert("home"@[1] == 'o');
    assert("home"@[2] == 'm');
    assert("end"@[0] == 'e');
    assert("end"@[1] == 'n');
    assert("end"@[2] == 'd');
    assert("pageup"@[0] == 'p');
    assert("pageup"@[1] == 'a');
    assert("pageup"@[2] == 'g');
    assert("pagedown"@[0] == 'p');
    assert("pagedown"@[1] == 'a');
    assert("pagedown"@[2] == 'g');
    assert("backtab"@[0] == 'b');
    assert("backtab"@[1] == 'a');
    assert("backtab"@[2] == 'c');
    assert("backspace"@[0] == 'b');
    assert("backspace"@[1] == 'a');
    assert("backspace"@[2] == 'c');
    assert("del"@[0] == 'd');
    assert("del"@[1] == 'e');
    assert("del"@[2] == 'l');
    assert("delete"@[0] == 'd');
    assert("delete"@[1] == 'e');
    assert("delete"@[2] == 'l');
    assert("insert"@[0] == 'i');
    assert("insert"@[1] == 'n');
    assert("insert"@[2] == 's');
    assert("ins"@[0] == 'i');
    assert("ins"@[1] == 'n');
    assert("ins"@[2] == 's');
    assert("f1"@[0] == 'f');
    assert("f1"@[1] == '1');
    assert("f2"@[0] == 'f');
    assert("f2"@[1] == '2');
    assert("f3"@[0] == 'f');
    assert("f3"@[1] == '3');
    assert("f4"@[0] == 'f');
    assert("f4"@[1] == '4');
    assert("f5"@[0] == 'f');
    assert("f5"@[1] == '5');
    assert("f6"@[0] == 'f');
    assert("f6"@[1] == '6');
    assert("f7"@[0] == 'f');
    assert("f7"@[1] == '7');
    assert("f8"@[0] == 'f');
    assert("f8"@[1] == '8');
    assert("f9"@[0] == 'f');
    assert("f9"@[1] == '9');
    assert("f10"@[0] == 'f');
    assert("f10"@[1] == '1');
    assert("f10"@[2] == '0');
    assert("f11"@[0] == 'f');
    assert("f11"@[1] == '1');
    assert("f11"@[2] == '1');
    assert("f12"@[0] == 'f');
    assert("f12"@[1] == '1');
    assert("f12"@[2] == '2');
    assert("f13"@[0] == 'f');
    assert("f13"@[1] == '1');
    assert("f13"@[2] == '3');
    assert("f14"@[0] == 'f');
    assert("f14"@[1] == '1');
    assert("f14"@[2] == '4');
    assert("f15"@[0] == 'f');
    assert("f15"@[1] == '1');
    assert("f15"@[2] == '5');
    assert("f16"@[0] == 'f');
    assert("f16"@[1] == '1');
    assert("f16"@[2] == '6');
    assert("f17"@[0] == 'f');
    assert("f17"@[1] == '1');
    assert("f17"@[2] == '7');
    assert("f18"@[0] == 'f');
    assert("f18"@[1] == '1');
    assert("f18"@[2] == '8');
    assert("f19"@[0] == 'f');
    assert("f19"@[1] == '1');
    assert("f19"@[2] == '9');
    assert("f20"@[0] == 'f');
    assert("f20"@[1] == '2');
    assert("f20"@[2] == '0');
    assert("f21"@[0] == 'f');
    assert("f21"@[1] == '2');
    assert("f21"@[2] == '1');
    assert("f22"@[0] == 'f');
    assert("f22"@[1] == '2');
    assert("f22"@[2] == '2');
    assert("f23"@[0] == 'f');
    assert("f23"@[1] == '2');
    assert("f23"@[2] == '3');
    assert("f24"@[0] == 'f');
    assert("f24"@[1] == '2');
    assert("f24"@[2] == '4');
    assert("space"@[0] == 's');
    assert("space"@[1] == 'p');
    assert("space"@[2] == 'a');
    assert("hyphen"@[0] == 'h');
    assert("hyphen"@[1] == 'y');
    assert("hyphen"@[2] == 'p');
    assert("minus"@[0] == 'm');
    assert("minus"@[1] == 'i');
    assert("minus"@[2] == 'n');
    assert("tab"@[0] == 't');
    assert("tab"@[1] == 'a');
    assert("tab"@[2] == 'b');
    let t = lowered(spec_format_code(c, false, "Enter"@));
    match c {
        KeyCode::Backspace => {
            assert(t =~= "backspace"@);
            assert(spec_parse_key_code(t, shift) == Some(c));
            assert(t.len() >= 1 && (forall|i: int| 0 <= i < t.len() ==> t[i] != '-'));
            assert(token_safe(t));
        },
        KeyCode::Enter => {
            assert(t =~= "enter"@);
            assert(spec_parse_key_code(t, shift) == Some(c));
            assert(t.len() >= 1 && (forall|i: int| 0 <= i < t.len() ==> t[i] != '-'));
            assert(token_safe(t));
        },
        KeyCode::Left => {
            assert(t =~= "left"@);
            assert(spec_parse_key_code(t, shift) == Some(c));
            assert(t.len() >= 1 && (forall|i: int| 0 <= i < t.len() ==> t[i] != '-'));
            assert(token_safe(t));
        },
        KeyCode::Right => {
            assert(t =~= "right"@);
            assert(spec_parse_key_code(t, shift) == Some(c));
            assert(t.len() >= 1 && (forall|i: int| 0 <= i < t.len() ==> t[i] != '-'));
            assert(token_safe(t));
        },
        KeyCode::Up => {
            assert(t =~= "up"@);
            assert(spec_parse_key_code(t, shift) == Some(c));
            assert(t.len() >= 1 && (forall|i: int| 0 <= i < t.len() ==> t[i] != '-'));
            assert(token_safe(t));
        },
        KeyCode::Down => {
            assert(t =~= "down"@);
            assert(spec_parse_key_code(t, shift) == Some(c));
            assert(t.len() >= 1 && (forall|i: int| 0 <= i < t.len() ==> t[i] != '-'));
            assert(token_safe(t));
        },
        KeyCode::Home => {
            assert(t =~= "home"@);
            assert(spec_parse_key_code(t, shift) == Some(c));
            assert(t.len() >= 1 && (forall|i: int| 0 <= i < t.len() ==> t[i] != '-'));
            assert(token_safe(t));
        },
        KeyCode::End => {
            assert(t =~= "end"@);
            assert(spec_parse_key_code(t, shift) == Some(c));
            assert(t.len() >= 1 && (forall|i: int| 0 <= i < t.len() ==> t[i] != '-'));
            assert(token_safe(t));
        },
        KeyCode::PageUp => {
            assert(t =~= "pageup"@);
            assert(spec_parse_key_code(t, shift) == Some(c));
            assert(t.len() >= 1 && (forall|i: int| 0 <= i < t.len() ==> t[i] != '-'));
            assert(token_safe(t));
        },
        KeyCode::PageDown => {
            assert(t =~= "pagedown"@);
            assert(spec_parse_key_code(t, shift) == Some(c));
            assert(t.len() >= 1 && (forall|i: int| 0 <= i < t.len() ==> t[i] != '-'));
            assert(token_safe(t));
        },
        KeyCode::Tab => {
            assert(t =~= "tab"@);
            assert(spec_parse_key_code(t, shift) == Some(c));
            assert(t.len() >= 1 && (forall|i: int| 0 <= i < t.len() ==> t[i] != '-'));
            assert(token_safe(t));
        },
        KeyCode::BackTab => {
            assert(t =~= "backtab"@);
            assert(spec_parse_key_code(t, shift) == Some(c));
            assert(t.len() >= 1 && (forall|i: int| 0 <= i < t.len() ==> t[i] != '-'));
            assert(token_safe(t));
        },
        KeyCode::Delete => {
            assert(t =~= "delete"@);
            assert(spec_parse_key_code(t, shift) == Some(c));
            assert(t.len() >= 1 && (forall|i: int| 0 <= i < t.len() ==> t[i] != '-'));
            assert(token_safe(t));
        },
        KeyCode::Insert => {
            assert(t =~= "insert"@);
            assert(spec_parse_key_code(t, shift) == Some(c));
            assert(t.len() >= 1 && (forall|i: int| 0 <= i < t.len() ==> t[i] != '-'));
            assert(token_safe(t));
        },
        KeyCode::Esc => {
            assert(t =~= "esc"@);
            assert(spec_parse_key_code(t, shift) == Some(c));
            assert(t.len() >= 1 && (forall|i: int| 0 <= i < t.len() ==> t[i] != '-'));
            assert(token_safe(t));
        },
        KeyCode::F(n) => {
            if n == 1 {
                assert(t =~= "f1"@);
                assert(spec_parse_key_code(t, shift) == Some(c));
                assert(t.len() >= 1 && (forall|j: int| 0 <= j < t.len() ==> t[j] != '-'));
                assert(token_safe(t));
            }
            if n == 2 {
                assert(t =~= "f2"@);
                assert(spec_parse_key_code(t, shift) == Some(c));
                assert(t.len() >= 1 && (forall|j: int| 0 <= j < t.len() ==> t[j] != '-'));
                assert(token_safe(t));
            }
            if n == 3 {
                assert(t =~= "f3"@);
                assert(spec_parse_key_code(t, shift) == Some(c));
                assert(t.len() >= 1 && (forall|j: int| 0 <= j < t.len() ==> t[j] != '-'));
                assert(token_safe(t));
            }
            if n == 4 {
                assert(t =~= "f4"@);
                assert(spec_parse_key_code(t, shift) == Some(c));
                assert(t.len() >= 1 && (forall|j: int| 0 <= j < t.len() ==> t[j] != '-'));
                assert(token_safe(t));
            }
            if n == 5 {
                assert(t =~= "f5"@);
                assert(spec_parse_key_code(t, shift) == Some(c));
                assert(t.len() >= 1 && (forall|j: int| 0 <= j < t.len() ==> t[j] != '-'));
                assert(token_safe(t));
            }
            if n == 6 {
                assert(t =~= "f6"@);
                assert(spec_parse_key_code(t, shift) == Some(c));
                assert(t.len() >= 1 && (forall|j: int| 0 <= j < t.len() ==> t[j] != '-'));
                assert(token_safe(t));
            }
            if n == 7 {
                assert(t =~= "f7"@);
                assert(spec_parse_key_code(t, shift) == Some(c));
                assert(t.len() >= 1 && (forall|j: int| 0 <= j < t.len() ==> t[j] != '-'));
                assert(token_safe(t));
            }
            if n == 8 {
                assert(t =~= "f8"@);
                assert(spec_parse_key_code(t, shift) == Some(c));
                assert(t.len() >= 1 && (forall|j: int| 0 <= j < t.len() ==> t[j] != '-'));
                assert(token_safe(t));
            }
            if n == 9 {
                assert(t =~= "f9"@);
                assert(spec_parse_key_code(t, shift) == Some(c));
                assert(t.len() >= 1 && (forall|j: int| 0 <= j < t.len() ==> t[j] != '-'));
                assert(token_safe(t));
            }
            if n == 10 {
                assert(t =~= "f10"@);
                assert(spec_parse_key_code(t, shift) == Some(c));
                assert(t.len() >= 1 && (forall|j: int| 0 <= j < t.len() ==> t[j] != '-'));
                assert(token_safe(t));
            }
            if n == 11 {
                assert(t =~= "f11"@);
                assert(spec_parse_key_code(t, shift) == Some(c));
                assert(t.len() >= 1 && (forall|j: int| 0 <= j < t.len() ==> t[j] != '-'));
                assert(token_safe(t));
            }
            if n == 12 {
                assert(t =~= "f12"@);
                assert(spec_parse_key_code(t, shift) == Some(c));
                assert(t.len() >= 1 && (forall|j: int| 0 <= j < t.len() ==> t[j] != '-'));
                assert(token_safe(t));
            }
            if n == 13 {
                assert(t =~= "f13"@);
                assert(spec_parse_key_code(t, shift) == Some(c));
                assert(t.len() >= 1 && (forall|j: int| 0 <= j < t.len() ==> t[j] != '-'));
                assert(token_safe(t));
            }
            if n == 14 {
                assert(t =~= "f14"@);
                assert(spec_parse_key_code(t, shift) == Some(c));
                assert(t.len() >= 1 && (forall|j: int| 0 <= j < t.len() ==> t[j] != '-'));
                assert(token_safe(t));
            }
            if n == 15 {
                assert(t =~= "f15"@);
                assert(spec_parse_key_code(t, shift) == Some(c));
                assert(t.len() >= 1 && (forall|j: int| 0 <= j < t.len() ==> t[j] != '-'));
                assert(token_safe(t));
            }
            if n == 16 {
                assert(t =~= "f16"@);
                assert(spec_parse_key_code(t, shift) == Some(c));
                assert(t.len() >= 1 && (forall|j: int| 0 <= j < t.len() ==> t[j] != '-'));
                assert(token_safe(t));
            }
            if n == 17 {
                assert(t =~= "f17"@);
                assert(spec_parse_key_code(t, shift) == Some(c));
                assert(t.len() >= 1 && (forall|j: int| 0 <= j < t.len() ==> t[j] != '-'));
                assert(token_safe(t));
            }
            if n == 18 {
                assert(t =~= "f18"@);
                assert(spec_parse_key_code(t, shift) == Some(c));
                assert(t.len() >= 1 && (forall|j: int| 0 <= j < t.len() ==> t[j] != '-'));
                assert(token_safe(t));
            }
            if n == 19 {
                assert(t =~= "f19"@);
                assert(spec_parse_key_code(t, shift) == Some(c));
                assert(t.len() >= 1 && (forall|j: int| 0 <= j < t.len() ==> t[j] != '-'));
                assert(token_safe(t));
            }
            if n == 20 {
                assert(t =~= "f20"@);
                assert(spec_parse_key_code(t, shift) == Some(c));
                assert(t.len() >= 1 && (forall|j: int| 0 <= j < t.len() ==> t[j] != '-'));
                assert(token_safe(t));
            }
            if n == 21 {
                assert(t =~= "f21"@);
                assert(spec_parse_key_code(t, shift) == Some(c));
                assert(t.len() >= 1 && (forall|j: int| 0 <= j < t.len() ==> t[j] != '-'));
                assert(token_safe(t));
            }
            if n == 22 {
                assert(t =~= "f22"@);
                assert(spec_parse_key_code(t, shift) == Some(c));
                assert(t.len() >= 1 && (forall|j: int| 0 <= j < t.len() ==> t[j] != '-'));
                assert(token_safe(t));
            }
            if n == 23 {
                assert(t =~= "f23"@);
                assert(spec_parse_key_code(t, shift) == Some(c));
                assert(t.len() >= 1 && (forall|j: int| 0 <= j < t.len() ==> t[j] != '-'));
                assert(token_safe(t));
            }
            if n == 24 {
                assert(t =~= "f24"@);
                assert(spec_parse_key_code(t, shift) == Some(c));
                assert(t.len() >= 1 && (forall|j: int| 0 <= j < t.len() ==> t[j] != '-'));
                assert(token_safe(t));
            }
        },
        KeyCode::Char(ch) => {
            if ch == ' ' {
                assert(t =~= "space"@);
                assert(spec_parse_key_code(t, shift) == Some(c));
                assert(t.len() >= 1 && (forall|i: int| 0 <= i < t.len() ==> t[i] != '-'));
                assert(token_safe(t));
            } else if ch == '-' {
                assert(t =~= "hyphen"@);
                assert(spec_parse_key_code(t, shift) == Some(c));
                assert(t.len() >= 1 && (forall|i: int| 0 <= i < t.len() ==> t[i] != '-'));
                assert(token_safe(t));
            } else {
                assert(t =~= seq![to_ascii_lower(ch)]);
                assert(spec_parse_key_code(t, shift) == Some(c));
                assert(t.len() >= 1 && (forall|i: int| 0 <= i < t.len() ==> t[i] != '-'));
                assert(token_safe(t));
            }
        },
        _ => {
            assert(false);
        },
    }
}


/// Lowercasing distributes over concatenation.
proof fn lemma_lowered_concat(a: Seq<char>, b: Seq<char>)
    ensures
        lowered(a + b) == lowered(a) + lowered(b),
{
    assert(lowered(a + b) =~= lowered(a) + lowered(b));
}

/// Stripping the rendered modifier prefixes of a combination recovers its
/// modifier set and leaves the body alone.
proof fn lemma_strip_full(mods: KeyModifiers, s: Seq<char>)
    requires
        !mods.super_,
        !starts_ctrl(s),
        !starts_alt(s),
        !starts_shift(s),
    ensures
        strip_modifiers(
            (if mods.ctrl {
                seq!['c', 't', 'r', 'l', '-']
            } else {
                Seq::<char>::empty()
            }) + (if mods.alt {
                seq!['a', 'l', 't', '-']
            } else {
                Seq::<char>::empty()
            }) + (if mods.shift {
                seq!['s', 'h', 'i', 'f', 't', '-']
            } else {
                Seq::<char>::empty()
            }) + s,
            KeyModifiers::none(),
        ) == (s, mods),
{
    let cp = seq!['c', 't', 'r', 'l', '-'];
    let ap = seq!['a', 'l', 't', '-'];
    let sp = seq!['s', 'h', 'i', 'f', 't', '-'];
    let r2 = (if mods.shift {
        sp
    } else {
        Seq::<char>::empty()
    }) + s;
    let r1 = (if mods.alt {
        ap
    } else {
        Seq::<char>::empty()
    }) + r2;
    let r0 = (if mods.ctrl {
        cp
    } else {
        Seq::<char>::empty()
    }) + r1;
    let whole = (if mods.ctrl {
        cp
    } else {
        Seq::<char>::empty()
    }) + (if mods.alt {
        ap
    } else {
        Seq::<char>::empty()
    }) + (if mods.shift {
        sp
    } else {
        Seq::<char>::empty()
    }) + s;
    assert(whole =~= r0);
    let m0 = KeyModifiers::none();
    let m1 = if mods.ctrl {
        KeyModifiers { ctrl: true, ..m0 }
    } else {
        m0
    };
    let m2 = if mods.alt {
        KeyModifiers { alt: true, ..m1 }
    } else {
        m1
    };
    let m3 = if mods.shift {
        KeyModifiers { shift: true, ..m2 }
    } else {
        m2
    };
    if mods.ctrl {
        lemma_strip_ctrl(r1, m0);
        assert(strip_modifiers(r0, m0) == strip_modifiers(r1, m1));
    } else {
        assert(r0 =~= r1);
    }
    if mods.alt {
        lemma_strip_alt(r2, m1);
        assert(strip_modifiers(r1, m1) == strip_modifiers(r2, m2));
    } else {
        assert(r1 =~= r2);
    }
    if mods.shift {
        lemma_strip_shift(s, m2);
        assert(strip_modifiers(r2, m2) == strip_modifiers(s, m3));
    } else {
        assert(r2 =~= s);
    }
    lemma_strip_none(s, m3);
    assert(m3 == mods);
}

/// One good token parses to its one code.
proof fn lemma_parse_tokens_one(t1: Seq<char>, shift: bool, c1: KeyCode)
    requires
        spec_parse_key_code(t1, shift) == Some(c1),
    ensures
        spec_parse_tokens(seq![t1], shift) == Ok::<Seq<KeyCode>, Seq<char>>(seq![c1]),
{
    reveal_with_fuel(spec_parse_tokens, 2);
    let toks = seq![t1];
    assert(toks.drop_first() =~= Seq::<Seq<char>>::empty());
    assert(seq![c1] + Seq::<KeyCode>::empty() =~= seq![c1]);
}

/// Two good tokens parse to their two codes.
proof fn lemma_parse_tokens_two(t1: Seq<char>, t2: Seq<char>, shift: bool, c1: KeyCode, c2: KeyCode)
    requires
        spec_parse_key_code(t1, shift) == Some(c1),
        spec_parse_key_code(t2, shift) == Some(c2),
    ensures
        spec_parse_tokens(seq![t1, t2], shift) == Ok::<Seq<KeyCode>, Seq<char>>(seq![c1, c2]),
{
    lemma_parse_tokens_one(t2, shift, c2);
    let toks = seq![t1, t2];
    assert(toks.drop_first() =~= seq![t2]);
    assert(seq![c1] + seq![c2] =~= seq![c1, c2]);
}

/// Three good tokens parse to their three codes.
proof fn lemma_parse_tokens_three(
    t1: Seq<char>,
    t2: Seq<char>,
    t3: Seq<char>,
    shift: bool,
    c1: KeyCode,
    c2: KeyCode,
    c3: KeyCode,
)
    requires
        spec_parse_key_code(t1, shift) == Some(c1),
        spec_parse_key_code(t2, shift) == Some(c2),
        spec_parse_key_code(t3, shift) == Some(c3),
    ensures
        spec_parse_tokens(seq![t1, t2, t3], shift) == Ok::<Seq<KeyCode>, Seq<char>>(
            seq![c1, c2, c3],
        ),
{
    lemma_parse_tokens_two(t2, t3, shift, c2, c3);
    let toks = seq![t1, t2, t3];
    assert(toks.drop_first() =~= seq![t2, t3]);
    assert(seq![c1] + seq![c2, c3] =~= seq![c1, c2, c3]);
}

/// A canonical combination rebuilds into itself: sorting its already
/// sorted codes and normalizing its already coherent cases changes
/// nothing.
proof fn lemma_new_identity(kc: KeyCombination)
    requires
        round_trippable(kc),
    ensures
        spec_new(kc.codes, kc.modifiers) == kc,
{
    let shift = kc.modifiers.shift;
    match kc.codes {
        OneToThree::One(a) => {
            assert(kc.codes@[0] == a);
            assert(round_trippable_code(a, shift));
        },
        OneToThree::Two(a, b) => {
            assert(kc.codes@[0] == a && kc.codes@[1] == b);
            assert(round_trippable_code(a, shift));
            assert(round_trippable_code(b, shift));
            assert(code_le(a, b));
        },
        OneToThree::Three(a, b, c) => {
            assert(kc.codes@[0] == a && kc.codes@[1] == b && kc.codes@[2] == c);
            assert(round_trippable_code(a, shift));
            assert(round_trippable_code(b, shift));
            assert(round_trippable_code(c, shift));
            assert(code_le(a, b));
            assert(code_le(b, c));
        },
    }
    assert(sorted_codes(kc.codes) == kc.codes);
    assert(normalize_codes(kc.codes, shift) == kc.codes);
    assert(!any_forces_shift(kc.codes, shift));
}


/// Law: for every combination the parser can produce and read back (see
/// `round_trippable`), rendering under the default format and re-parsing
/// yields the very same combination.
#[verifier::rlimit(100)]
#[verifier::spinoff_prover]
pub proof fn lemma_parse_format_round_trip(fmt: KeyCombinationFormat, kc: KeyCombination)
    requires
        is_default_format(fmt),
        round_trippable(kc),
    ensures
        spec_parse(spec_format(fmt, kc)) == Ok::<KeyCombination, Seq<char>>(kc),
{
    reveal_strlit("Ctrl-");
    reveal_strlit("Alt-");
    reveal_strlit("Shift-");
    reveal_strlit("Cmd-");
    reveal_strlit("Enter");
    reveal_strlit("-");
    let mods = kc.modifiers;
    let shift = mods.shift;
    let out = spec_format(fmt, kc);
    let prefix = spec_prefixes(fmt, mods);
    let body = spec_format_codes(kc.codes, false, "Enter"@, "-"@);
    assert(out == prefix + body);

    let cp = seq!['c', 't', 'r', 'l', '-'];
    let ap = seq!['a', 'l', 't', '-'];
    let sp = seq!['s', 'h', 'i', 'f', 't', '-'];
    let lp = (if mods.ctrl {
        cp
    } else {
        Seq::<char>::empty()
    }) + (if mods.alt {
        ap
    } else {
        Seq::<char>::empty()
    }) + (if mods.shift {
        sp
    } else {
        Seq::<char>::empty()
    });
    let p1: Seq<char> = if mods.ctrl {
        fmt.control@
    } else {
        Seq::<char>::empty()
    };
    let p2: Seq<char> = if mods.alt {
        fmt.alt@
    } else {
        Seq::<char>::empty()
    };
    let p3: Seq<char> = if mods.shift {
        fmt.shift@
    } else {
        Seq::<char>::empty()
    };
    let p4: Seq<char> = if mods.super_ {
        fmt.command@
    } else {
        Seq::<char>::empty()
    };
    assert(prefix == p1 + p2 + p3 + p4);
    lemma_lowered_concat(p1 + p2 + p3, p4);
    lemma_lowered_concat(p1 + p2, p3);
    lemma_lowered_concat(p1, p2);
    assert(lowered(fmt.control@) =~= cp);
    assert(lowered(fmt.alt@) =~= ap);
    assert(lowered(fmt.shift@) =~= sp);
    assert(lowered(Seq::<char>::empty()) =~= Seq::<char>::empty());
    assert(lowered(prefix) =~= lp);
    lemma_lowered_concat(prefix, body);
    let sb = lowered(body);
    assert(lowered(out) == lowered(prefix) + sb);

    match kc.codes {
        OneToThree::One(a) => {
            assert(kc.codes@[0] == a);
            lemma_token_roundtrip(a, shift);
            let t1 = lowered(spec_format_code(a, false, "Enter"@));
            assert(body == spec_format_code(a, false, "Enter"@));
            assert(sb == t1);
            lemma_token_concat_safe(t1, Seq::<char>::empty());
            assert(t1 + Seq::<char>::empty() =~= t1);
            lemma_strip_full(mods, sb);
            assert(lowered(out) =~= lp + sb);
            assert(strip_modifiers(lowered(out), KeyModifiers::none()) == (sb, mods));
            assert(sb != seq!['-']) by {
                if sb == seq!['-'] {
                    assert(t1[0] == '-');
                }
            }
            lemma_split_one(t1);
            lemma_parse_tokens_one(t1, shift, a);
            let codes = seq![a];
            assert(kc.codes@ =~= codes);
            assert((KeyModifiers {
                shift: shift || codes.contains(KeyCode::BackTab),
                ..mods
            }) == mods) by {
                if codes.contains(KeyCode::BackTab) {
                    assert(kc.codes@.contains(KeyCode::BackTab));
                }
            }
            lemma_new_identity(kc);
            assert(OneToThree::One(codes[0]) == kc.codes);
            assert(spec_parse(out) == Ok::<KeyCombination, Seq<char>>(kc));
        },
        OneToThree::Two(a, b) => {
            assert(kc.codes@[0] == a && kc.codes@[1] == b);
            lemma_token_roundtrip(a, shift);
            lemma_token_roundtrip(b, shift);
            let t1 = lowered(spec_format_code(a, false, "Enter"@));
            let t2 = lowered(spec_format_code(b, false, "Enter"@));
            let fa = spec_format_code(a, false, "Enter"@);
            let fb = spec_format_code(b, false, "Enter"@);
            assert(body == fa + fmt.key_separator@ + fb);
            lemma_lowered_concat(fa + fmt.key_separator@, fb);
            lemma_lowered_concat(fa, fmt.key_separator@);
            assert(lowered(fmt.key_separator@) =~= seq!['-']);
            assert(sb == t1 + seq!['-'] + t2);
            lemma_token_concat_safe(t1, seq!['-'] + t2);
            assert(t1 + (seq!['-'] + t2) =~= sb);
            lemma_strip_full(mods, sb);
            assert(lowered(out) =~= lp + sb);
            assert(strip_modifiers(lowered(out), KeyModifiers::none()) == (sb, mods));
            assert(sb.len() >= 3);
            assert(sb != seq!['-']);
            lemma_split_two(t1, t2);
            lemma_parse_tokens_two(t1, t2, shift, a, b);
            let codes = seq![a, b];
            assert(kc.codes@ =~= codes);
            assert((KeyModifiers {
                shift: shift || codes.contains(KeyCode::BackTab),
                ..mods
            }) == mods) by {
                if codes.contains(KeyCode::BackTab) {
                    assert(kc.codes@.contains(KeyCode::BackTab));
                }
            }
            lemma_new_identity(kc);
            assert(OneToThree::Two(codes[0], codes[1]) == kc.codes);
            assert(spec_parse(out) == Ok::<KeyCombination, Seq<char>>(kc));
        },
        OneToThree::Three(a, b, c) => {
            assert(kc.codes@[0] == a && kc.codes@[1] == b && kc.codes@[2] == c);
            lemma_token_roundtrip(a, shift);
            lemma_token_roundtrip(b, shift);
            lemma_token_roundtrip(c, shift);
            let t1 = lowered(spec_format_code(a, false, "Enter"@));
            let t2 = lowered(spec_format_code(b, false, "Enter"@));
            let t3 = lowered(spec_format_code(c, false, "Enter"@));
            let fa = spec_format_code(a, false, "Enter"@);
            let fb = spec_format_code(b, false, "Enter"@);
            let fc = spec_format_code(c, false, "Enter"@);
            assert(body == fa + fmt.key_separator@ + fb + fmt.key_separator@ + fc);
            lemma_lowered_concat(fa + fmt.key_separator@ + fb + fmt.key_separator@, fc);
            lemma_lowered_concat(fa + fmt.key_separator@ + fb, fmt.key_separator@);
            lemma_lowered_concat(fa + fmt.key_separator@, fb);
            lemma_lowered_concat(fa, fmt.key_separator@);
            assert(lowered(fmt.key_separator@) =~= seq!['-']);
            assert(sb == t1 + seq!['-'] + t2 + seq!['-'] + t3);
            lemma_token_concat_safe(t1, seq!['-'] + t2 + seq!['-'] + t3);
            assert(t1 + (seq!['-'] + t2 + seq!['-'] + t3) =~= sb);
            lemma_strip_full(mods, sb);
            assert(lowered(out) =~= lp + sb);
            assert(strip_modifiers(lowered(out), KeyModifiers::none()) == (sb, mods));
            assert(sb.len() >= 5);
            assert(sb != seq!['-']);
            lemma_split_three(t1, t2, t3);
            lemma_parse_tokens_three(t1, t2, t3, shift, a, b, c);
            let codes = seq![a, b, c];
            assert(kc.codes@ =~= codes);
            assert((KeyModifiers {
                shift: shift || codes.contains(KeyCode::BackTab),
                ..mods
            }) == mods) by {
                if codes.contains(KeyCode::BackTab) {
                    assert(kc.codes@.contains(KeyCode::BackTab));
                }
            }
            lemma_new_identity(kc);
            assert(OneToThree::Three(codes[0], codes[1], codes[2]) == kc.codes);
            assert(spec_parse(out) == Ok::<KeyCombination, Seq<char>>(kc));
        },
    }
}


/// Whether a code is one the parser could have produced: a named key of
/// the vocabulary, or an ASCII character key.
pub open spec fn parseable_or_ascii(c: KeyCode) -> bool {
    match c {
        KeyCode::Char(ch) => (ch as u32) < 128,
        _ => parseable_named(c),
    }
}

/// Stripping modifier prefixes never touches the Super flag.
proof fn lemma_strip_modifiers_super(s: Seq<char>, m: KeyModifiers)
    ensures
        strip_modifiers(s, m).1.super_ == m.super_,
    decreases s.len(),
{
    if starts_ctrl(s) {
        lemma_strip_modifiers_super(s.skip(5), KeyModifiers { ctrl: true, ..m });
    } else if starts_alt(s) {
        lemma_strip_modifiers_super(s.skip(4), KeyModifiers { alt: true, ..m });
    } else if starts_shift(s) {
        lemma_strip_modifiers_super(s.skip(6), KeyModifiers { shift: true, ..m });
    }
}

/// Whatever token it read, the parser hands back a vocabulary key or an
/// ASCII character key.
proof fn lemma_parse_key_code_form(tok: Seq<char>, shift: bool)
    ensures
        spec_parse_key_code(tok, shift) matches Some(c) ==> parseable_or_ascii(c),
{
}

/// Every code of a successfully parsed token sequence is a vocabulary key
/// or an ASCII character key.
proof fn lemma_parse_tokens_form(toks: Seq<Seq<char>>, shift: bool)
    ensures
        spec_parse_tokens(toks, shift) matches Ok(codes) ==> {
            &&& codes.len() == toks.len()
            &&& forall|i: int| 0 <= i < codes.len() ==> parseable_or_ascii(#[trigger] codes[i])
        },
    decreases toks.len(),
{
    if toks.len() > 0 {
        lemma_parse_key_code_form(toks[0], shift);
        lemma_parse_tokens_form(toks.drop_first(), shift);
        match spec_parse_key_code(toks[0], shift) {
            Some(code) => {
                match spec_parse_tokens(toks.drop_first(), shift) {
                    Ok(rest) => {
                        let codes = seq![code] + rest;
                        assert(codes[0] == code);
                        assert(forall|i: int| 1 <= i < codes.len() ==> codes[i] == rest[i - 1]);
                    },
                    Err(_) => {},
                }
            },
            None => {},
        }
    }
}

/// Each code of a sorted rearrangement stood in the original collection.
proof fn lemma_sorted_codes_membership(codes: OneToThree<KeyCode>)
    ensures
        forall|i: int|
            0 <= i < sorted_codes(codes)@.len() ==> codes@.contains(
                #[trigger] sorted_codes(codes)@[i],
            ),
        forall|i: int|
            0 <= i < codes@.len() ==> sorted_codes(codes)@.contains(#[trigger] codes@[i]),
{
    let s = sorted_codes(codes)@;
    let o = codes@;
    assert forall|i: int| 0 <= i < s.len() implies o.contains(s[i]) by {
        match codes {
            OneToThree::One(a) => {
                assert(o[0] == a);
            },
            OneToThree::Two(a, b) => {
                assert(o[0] == a && o[1] == b);
                assert(s[i] == a || s[i] == b);
            },
            OneToThree::Three(a, b, c) => {
                assert(o[0] == a && o[1] == b && o[2] == c);
                assert(s[i] == a || s[i] == b || s[i] == c);
            },
        }
    }
    assert forall|i: int| 0 <= i < o.len() implies s.contains(o[i]) by {
        match codes {
            OneToThree::One(a) => {
                assert(s[0] == a);
            },
            OneToThree::Two(a, b) => {
                assert(s[0] == a || s[1] == a);
                assert(s[0] == b || s[1] == b);
            },
            OneToThree::Three(a, b, c) => {
                assert(s[0] == a || s[1] == a || s[2] == a);
                assert(s[0] == b || s[1] == b || s[2] == b);
                assert(s[0] == c || s[1] == c || s[2] == c);
            },
        }
    }
}

/// Law: whatever string it was given, the parser only ever produces
/// combinations of a canonical form: the modifiers stay among Ctrl, Alt
/// and Shift; every code is a named key of the vocabulary or an ASCII
/// character key; and Shift is set whenever BackTab is among the codes.
#[verifier::rlimit(100)]
#[verifier::spinoff_prover]
pub proof fn lemma_parse_output_form(s: Seq<char>, kc: KeyCombination)
    requires
        spec_parse(s) == Ok::<KeyCombination, Seq<char>>(kc),
    ensures
        !kc.modifiers.super_,
        kc.codes@.contains(KeyCode::BackTab) ==> kc.modifiers.shift,
        forall|i: int|
            0 <= i < kc.codes@.len() ==> parseable_or_ascii(#[trigger] kc.codes@[i]),
{
    let low = lowered(s);
    let stripped = strip_modifiers(low, KeyModifiers::none());
    let rest = stripped.0;
    let mods = stripped.1;
    lemma_strip_modifiers_super(low, KeyModifiers::none());
    if rest == seq!['-'] {
        let built = spec_new(OneToThree::One(KeyCode::Char('-')), mods);
        assert(built.codes@[0] == KeyCode::Char('-'));
        assert(!built.codes@.contains(KeyCode::BackTab));
    } else {
        match spec_parse_tokens(split_dash(rest), mods.shift) {
            Err(_) => {},
            Ok(codes) => {
                lemma_parse_tokens_form(split_dash(rest), mods.shift);
                let mods2 = KeyModifiers {
                    shift: mods.shift || codes.contains(KeyCode::BackTab),
                    ..mods
                };
                if 1 <= codes.len() <= 3 {
                    let raw = if codes.len() == 1 {
                        OneToThree::One(codes[0])
                    } else if codes.len() == 2 {
                        OneToThree::Two(codes[0], codes[1])
                    } else {
                        OneToThree::Three(codes[0], codes[1], codes[2])
                    };
                    assert(forall|i: int|
                        0 <= i < raw@.len() ==> parseable_or_ascii(#[trigger] raw@[i]));
                    lemma_sorted_codes_membership(raw);
                    let sorted = sorted_codes(raw);
                    assert(forall|i: int|
                        0 <= i < sorted@.len() ==> parseable_or_ascii(#[trigger] sorted@[i]));
                    let built = spec_new(raw, mods2);
                    assert(built.codes == normalize_codes(sorted, mods2.shift));
                    assert(forall|i: int|
                        0 <= i < built.codes@.len() ==> built.codes@[i] == normalize_code(
                            #[trigger] sorted@[i],
                            mods2.shift,
                        ));
                    assert(forall|i: int|
                        0 <= i < built.codes@.len() ==> parseable_or_ascii(
                            #[trigger] built.codes@[i],
                        ));
                    assert(kc == built);
                    if kc.codes@.contains(KeyCode::BackTab) {
                        let w = choose|i: int|
                            0 <= i < kc.codes@.len() && kc.codes@[i] == KeyCode::BackTab;
                        assert(normalize_code(sorted@[w], mods2.shift) == KeyCode::BackTab);
                        assert(sorted@[w] == KeyCode::BackTab);
                        assert(raw@.contains(KeyCode::BackTab));
                        assert(codes.contains(KeyCode::BackTab)) by {
                            assert(raw@ =~= codes);
                        }
                        assert(mods2.shift);
                        assert(kc.modifiers.shift);
                    }
                }
            },
        }
    }
}

/// Whether a character key agrees with the Shift flag and avoids the two
/// characters that render as the enter label.
pub open spec fn code_case_coherent(c: KeyCode, shift: bool) -> bool {
    match c {
        KeyCode::Char(ch) => {
            &&& ch != '\r'
            &&& ch != '\n'
            &&& (shift ==> !is_ascii_lower(ch))
            &&& (!shift ==> !is_ascii_upper(ch))
        },
        _ => true,
    }
}

/// Law: a combination the parser produced re-parses, from its default
/// rendering, to itself — as long as its codes are in sorted order with
/// their case agreeing with the Shift flag (the parser leaves them so in
/// all but degenerate inputs) and none is the carriage-return or line-feed
/// character key.
pub proof fn lemma_parser_output_round_trips(
    fmt: KeyCombinationFormat,
    s: Seq<char>,
    kc: KeyCombination,
)
    requires
        is_default_format(fmt),
        spec_parse(s) == Ok::<KeyCombination, Seq<char>>(kc),
        codes_sorted(kc.codes@),
        forall|i: int|
            0 <= i < kc.codes@.len() ==> code_case_coherent(
                #[trigger] kc.codes@[i],
                kc.modifiers.shift,
            ),
    ensures
        spec_parse(spec_format(fmt, kc)) == Ok::<KeyCombination, Seq<char>>(kc),
{
    lemma_parse_output_form(s, kc);
    assert forall|i: int|
        0 <= i < kc.codes@.len() implies round_trippable_code(
        #[trigger] kc.codes@[i],
        kc.modifiers.shift,
    ) by {
        assert(parseable_or_ascii(kc.codes@[i]));
        assert(code_case_coherent(kc.codes@[i], kc.modifiers.shift));
    }
    assert(round_trippable(kc));
    lemma_parse_format_round_trip(fmt, kc);
}

} // verus!
