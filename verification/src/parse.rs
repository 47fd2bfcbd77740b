use vstd::prelude::*;

use crate::key_code::KeyCode;
use crate::key_combination::{spec_new, KeyCombination};
use crate::key_event::KeyModifiers;
use crate::one_to_three::OneToThree;
use crate::text::{
    chars_eq_str, chars_of_str, chars_to_string, lower_chars, lowered, to_ascii_upper, upper_char,
};

verus! {

/// The error of a string that does not denote a key combination; `raw`
/// holds the part that could not be understood.
#[derive(Debug, Clone)]
pub struct ParseKeyError {
    /// the string which couldn't be parsed
    pub raw: String,
}

impl ParseKeyError {
    pub fn new(s: &str) -> (r: Self)
        ensures
            r.raw@ == s@,
    {
        Self { raw: String::from_str(s) }
    }
}

/// Whether the sequence starts with the modifier prefix `ctrl-`.
pub open spec fn starts_ctrl(s: Seq<char>) -> bool {
    s.len() >= 5 && s[0] == 'c' && s[1] == 't' && s[2] == 'r' && s[3] == 'l' && s[4] == '-'
}

/// Whether the sequence starts with the modifier prefix `alt-`.
pub open spec fn starts_alt(s: Seq<char>) -> bool {
    s.len() >= 4 && s[0] == 'a' && s[1] == 'l' && s[2] == 't' && s[3] == '-'
}

/// Whether the sequence starts with the modifier prefix `shift-`.
pub open spec fn starts_shift(s: Seq<char>) -> bool {
    s.len() >= 6 && s[0] == 's' && s[1] == 'h' && s[2] == 'i' && s[3] == 'f' && s[4] == 't'
        && s[5] == '-'
}

/// Strip recognized modifier prefixes from the front of the (already
/// lowercased) input, accumulating the modifier set, until none matches.
pub open spec fn strip_modifiers(s: Seq<char>, m: KeyModifiers) -> (Seq<char>, KeyModifiers)
    decreases s.len(),
{
    if starts_ctrl(s) {
        strip_modifiers(s.skip(5), KeyModifiers { ctrl: true, ..m })
    } else if starts_alt(s) {
        strip_modifiers(s.skip(4), KeyModifiers { alt: true, ..m })
    } else if starts_shift(s) {
        strip_modifiers(s.skip(6), KeyModifiers { shift: true, ..m })
    } else {
        (s, m)
    }
}

/// Split a sequence on `-`; splitting the empty sequence gives one empty
/// part, and every separator opens a new part.
pub open spec fn split_dash(s: Seq<char>) -> Seq<Seq<char>>
    decreases s.len(),
{
    if s.len() == 0 {
        seq![Seq::<char>::empty()]
    } else if s[0] == '-' {
        seq![Seq::<char>::empty()] + split_dash(s.drop_first())
    } else {
        let r = split_dash(s.drop_first());
        seq![seq![s[0]] + r[0]] + r.drop_first()
    }
}

/// Splitting always yields at least one part.
pub proof fn lemma_split_dash_len(s: Seq<char>)
    ensures
        split_dash(s).len() >= 1,
    decreases s.len(),
{
    if s.len() != 0 {
        lemma_split_dash_len(s.drop_first());
    }
}

/// The key code denoted by one (already lowercased) token: a name from the
/// fixed vocabulary, or a single ASCII character, uppercased when Shift is
/// in effect.
pub open spec fn spec_parse_key_code(tok: Seq<char>, shift: bool) -> Option<KeyCode> {
    if tok == "esc"@ {
        Some(KeyCode::Esc)
    } else if tok == "enter"@ {
        Some(KeyCode::Enter)
    } else if tok == "left"@ {
        Some(KeyCode::Left)
    } else if tok == "right"@ {
        Some(KeyCode::Right)
    } else if tok == "up"@ {
        Some(KeyCode::Up)
    } else if tok == "down"@ {
        Some(KeyCode::Down)
    } else if tok == "home"@ {
        Some(KeyCode::Home)
    } else if tok == "end"@ {
        Some(KeyCode::End)
    } else if tok == "pageup"@ {
        Some(KeyCode::PageUp)
    } else if tok == "pagedown"@ {
        Some(KeyCode::PageDown)
    } else if tok == "backtab"@ {
        Some(KeyCode::BackTab)
    } else if tok == "backspace"@ {
        Some(KeyCode::Backspace)
    } else if tok == "del"@ {
        Some(KeyCode::Delete)
    } else if tok == "delete"@ {
        Some(KeyCode::Delete)
    } else if tok == "insert"@ {
        Some(KeyCode::Insert)
    } else if tok == "ins"@ {
        Some(KeyCode::Insert)
    } else if tok == "f1"@ {
        Some(KeyCode::F(1))
    } else if tok == "f2"@ {
        Some(KeyCode::F(2))
    } else if tok == "f3"@ {
        Some(KeyCode::F(3))
    } else if tok == "f4"@ {
        Some(KeyCode::F(4))
    } else if tok == "f5"@ {
        Some(KeyCode::F(5))
    } else if tok == "f6"@ {
        Some(KeyCode::F(6))
    } else if tok == "f7"@ {
        Some(KeyCode::F(7))
    } else if tok == "f8"@ {
        Some(KeyCode::F(8))
    } else if tok == "f9"@ {
        Some(KeyCode::F(9))
    } else if tok == "f10"@ {
        Some(KeyCode::F(10))
    } else if tok == "f11"@ {
        Some(KeyCode::F(11))
    } else if tok == "f12"@ {
        Some(KeyCode::F(12))
    } else if tok == "f13"@ {
        Some(KeyCode::F(13))
    } else if tok == "f14"@ {
        Some(KeyCode::F(14))
    } else if tok == "f15"@ {
        Some(KeyCode::F(15))
    } else if tok == "f16"@ {
        Some(KeyCode::F(16))
    } else if tok == "f17"@ {
        Some(KeyCode::F(17))
    } else if tok == "f18"@ {
        Some(KeyCode::F(18))
    } else if tok == "f19"@ {
        Some(KeyCode::F(19))
    } else if tok == "f20"@ {
        Some(KeyCode::F(20))
    } else if tok == "f21"@ {
        Some(KeyCode::F(21))
    } else if tok == "f22"@ {
        Some(KeyCode::F(22))
    } else if tok == "f23"@ {
        Some(KeyCode::F(23))
    } else if tok == "f24"@ {
        Some(KeyCode::F(24))
    } else if tok == "space"@ {
        Some(KeyCode::Char(' '))
    } else if tok == "hyphen"@ {
        Some(KeyCode::Char('-'))
    } else if tok == "minus"@ {
        Some(KeyCode::Char('-'))
    } else if tok == "tab"@ {
        Some(KeyCode::Tab)
    } else if tok.len() == 1 && (tok[0] as u32) < 128 {
        Some(
            KeyCode::Char(
                if shift {
                    to_ascii_upper(tok[0])
                } else {
                    tok[0]
                },
            ),
        )
    } else {
        None
    }
}

/// The key codes of a sequence of tokens, or the first token that denotes
/// none.
pub open spec fn spec_parse_tokens(toks: Seq<Seq<char>>, shift: bool) -> Result<
    Seq<KeyCode>,
    Seq<char>,
>
    decreases toks.len(),
{
    if toks.len() == 0 {
        Ok(Seq::empty())
    } else {
        match spec_parse_key_code(toks[0], shift) {
            None => Err(toks[0]),
            Some(code) => match spec_parse_tokens(toks.drop_first(), shift) {
                Err(e) => Err(e),
                Ok(rest) => Ok(seq![code] + rest),
            },
        }
    }
}

/// What a string denotes as a key combination: lowercase the input, strip
/// modifier prefixes, then read one to three `-`-separated key tokens (a
/// lone `-` denotes the hyphen key itself); a `backtab` token forces Shift
/// on; the codes and modifiers then assemble into a canonical combination.
/// An error carries the offending token (empty for an oversized
/// combination).
pub open spec fn spec_parse(s: Seq<char>) -> Result<KeyCombination, Seq<char>> {
    let low = lowered(s);
    let stripped = strip_modifiers(low, KeyModifiers::none());
    let rest = stripped.0;
    let mods = stripped.1;
    if rest == seq!['-'] {
        Ok(spec_new(OneToThree::One(KeyCode::Char('-')), mods))
    } else {
        match spec_parse_tokens(split_dash(rest), mods.shift) {
            Err(e) => Err(e),
            Ok(codes) => {
                let mods2 = KeyModifiers {
                    shift: mods.shift || codes.contains(KeyCode::BackTab),
                    ..mods
                };
                if codes.len() == 1 {
                    Ok(spec_new(OneToThree::One(codes[0]), mods2))
                } else if codes.len() == 2 {
                    Ok(spec_new(OneToThree::Two(codes[0], codes[1]), mods2))
                } else if codes.len() == 3 {
                    Ok(spec_new(OneToThree::Three(codes[0], codes[1], codes[2]), mods2))
                } else {
                    Err(Seq::empty())
                }
            },
        }
    }
}

/// The key code denoted by one token, in the case given.
#[verifier::rlimit(60)]
fn match_token(tok: &[char], shift: bool) -> (r: Option<KeyCode>)
    ensures
        r == spec_parse_key_code(tok@, shift),
{
    if chars_eq_str(tok, "esc") {
        Some(KeyCode::Esc)
    } else if chars_eq_str(tok, "enter") {
        Some(KeyCode::Enter)
    } else if chars_eq_str(tok, "left") {
        Some(KeyCode::Left)
    } else if chars_eq_str(tok, "right") {
        Some(KeyCode::Right)
    } else if chars_eq_str(tok, "up") {
        Some(KeyCode::Up)
    } else if chars_eq_str(tok, "down") {
        Some(KeyCode::Down)
    } else if chars_eq_str(tok, "home") {
        Some(KeyCode::Home)
    } else if chars_eq_str(tok, "end") {
        Some(KeyCode::End)
    } else if chars_eq_str(tok, "pageup") {
        Some(KeyCode::PageUp)
    } else if chars_eq_str(tok, "pagedown") {
        Some(KeyCode::PageDown)
    } else if chars_eq_str(tok, "backtab") {
        Some(KeyCode::BackTab)
    } else if chars_eq_str(tok, "backspace") {
        Some(KeyCode::Backspace)
    } else if chars_eq_str(tok, "del") {
        Some(KeyCode::Delete)
    } else if chars_eq_str(tok, "delete") {
        Some(KeyCode::Delete)
    } else if chars_eq_str(tok, "insert") {
        Some(KeyCode::Insert)
    } else if chars_eq_str(tok, "ins") {
        Some(KeyCode::Insert)
    } else if chars_eq_str(tok, "f1") {
        Some(KeyCode::F(1))
    } else if chars_eq_str(tok, "f2") {
        Some(KeyCode::F(2))
    } else if chars_eq_str(tok, "f3") {
        Some(KeyCode::F(3))
    } else if chars_eq_str(tok, "f4") {
        Some(KeyCode::F(4))
    } else if chars_eq_str(tok, "f5") {
        Some(KeyCode::F(5))
    } else if chars_eq_str(tok, "f6") {
        Some(KeyCode::F(6))
    } else if chars_eq_str(tok, "f7") {
        Some(KeyCode::F(7))
    } else if chars_eq_str(tok, "f8") {
        Some(KeyCode::F(8))
    } else if chars_eq_str(tok, "f9") {
        Some(KeyCode::F(9))
    } else if chars_eq_str(tok, "f10") {
        Some(KeyCode::F(10))
    } else if chars_eq_str(tok, "f11") {
        Some(KeyCode::F(11))
    } else if chars_eq_str(tok, "f12") {
        Some(KeyCode::F(12))
    } else if chars_eq_str(tok, "f13") {
        Some(KeyCode::F(13))
    } else if chars_eq_str(tok, "f14") {
        Some(KeyCode::F(14))
    } else if chars_eq_str(tok, "f15") {
        Some(KeyCode::F(15))
    } else if chars_eq_str(tok, "f16") {
        Some(KeyCode::F(16))
    } else if chars_eq_str(tok, "f17") {
        Some(KeyCode::F(17))
    } else if chars_eq_str(tok, "f18") {
        Some(KeyCode::F(18))
    } else if chars_eq_str(tok, "f19") {
        Some(KeyCode::F(19))
    } else if chars_eq_str(tok, "f20") {
        Some(KeyCode::F(20))
    } else if chars_eq_str(tok, "f21") {
        Some(KeyCode::F(21))
    } else if chars_eq_str(tok, "f22") {
        Some(KeyCode::F(22))
    } else if chars_eq_str(tok, "f23") {
        Some(KeyCode::F(23))
    } else if chars_eq_str(tok, "f24") {
        Some(KeyCode::F(24))
    } else if chars_eq_str(tok, "space") {
        Some(KeyCode::Char(' '))
    } else if chars_eq_str(tok, "hyphen") {
        Some(KeyCode::Char('-'))
    } else if chars_eq_str(tok, "minus") {
        Some(KeyCode::Char('-'))
    } else if chars_eq_str(tok, "tab") {
        Some(KeyCode::Tab)
    } else if tok.len() == 1 && (tok[0] as u32) < 128 {
        Some(
            KeyCode::Char(
                if shift {
                    upper_char(tok[0])
                } else {
                    tok[0]
                },
            ),
        )
    } else {
        None
    }
}

/// Read a single key token (already lowercased by the full parser, or in
/// whatever case the caller means literally); `shift` uppercases a
/// character key.
pub fn parse_key_code(raw: &str, shift: bool) -> (r: Result<KeyCode, ParseKeyError>)
    ensures
        (r is Ok) == (spec_parse_key_code(raw@, shift) is Some),
        r matches Ok(c) ==> spec_parse_key_code(raw@, shift) == Some(c),
        r matches Err(e) ==> e.raw@ == raw@,
{
    let chars = chars_of_str(raw);
    match match_token(chars.as_slice(), shift) {
        Some(code) => Ok(code),
        None => Err(ParseKeyError::new(raw)),
    }
}

/// The views of a sequence of character vectors.
pub open spec fn views_of(s: Seq<Vec<char>>) -> Seq<Seq<char>> {
    s.map_values(|v: Vec<char>| v@)
}

/// Whether `ctrl-` stands in the input at position `pos`.
fn ctrl_prefix_at(low: &Vec<char>, pos: usize) -> (r: bool)
    requires
        pos <= low@.len(),
    ensures
        r == starts_ctrl(low@.skip(pos as int)),
{
    low.len() - pos >= 5 && low[pos] == 'c' && low[pos + 1] == 't' && low[pos + 2] == 'r'
        && low[pos + 3] == 'l' && low[pos + 4] == '-'
}

/// Whether `alt-` stands in the input at position `pos`.
fn alt_prefix_at(low: &Vec<char>, pos: usize) -> (r: bool)
    requires
        pos <= low@.len(),
    ensures
        r == starts_alt(low@.skip(pos as int)),
{
    low.len() - pos >= 4 && low[pos] == 'a' && low[pos + 1] == 'l' && low[pos + 2] == 't'
        && low[pos + 3] == '-'
}

/// Whether `shift-` stands in the input at position `pos`.
fn shift_prefix_at(low: &Vec<char>, pos: usize) -> (r: bool)
    requires
        pos <= low@.len(),
    ensures
        r == starts_shift(low@.skip(pos as int)),
{
    low.len() - pos >= 6 && low[pos] == 's' && low[pos + 1] == 'h' && low[pos + 2] == 'i'
        && low[pos + 3] == 'f' && low[pos + 4] == 't' && low[pos + 5] == '-'
}

/// Strip the recognized modifier prefixes from the front of the lowercased
/// input, returning how far they reach and the modifier set they denote.
fn strip_modifier_prefixes(low: &Vec<char>) -> (r: (usize, KeyModifiers))
    ensures
        r.0 <= low@.len(),
        strip_modifiers(low@, KeyModifiers::none()) == (low@.skip(r.0 as int), r.1),
{
    let low_len = low.len();
    let mut pos: usize = 0;
    let mut modifiers = KeyModifiers::empty();
    proof {
        assert(low@.skip(0) =~= low@);
    }
    loop
        invariant
            pos <= low_len,
            low_len == low@.len(),
            strip_modifiers(low@, KeyModifiers::none()) == strip_modifiers(
                low@.skip(pos as int),
                modifiers,
            ),
        ensures
            pos <= low_len,
            strip_modifiers(low@, KeyModifiers::none()) == (low@.skip(pos as int), modifiers),
        decreases low_len - pos,
    {
        if ctrl_prefix_at(low, pos) {
            proof {
                assert(strip_modifiers(low@.skip(pos as int), modifiers) == strip_modifiers(
                    low@.skip(pos as int).skip(5),
                    KeyModifiers { ctrl: true, ..modifiers },
                ));
                assert(low@.skip(pos as int).skip(5) =~= low@.skip(pos + 5));
            }
            pos = pos + 5;
            modifiers = KeyModifiers { ctrl: true, ..modifiers };
        } else if alt_prefix_at(low, pos) {
            proof {
                assert(strip_modifiers(low@.skip(pos as int), modifiers) == strip_modifiers(
                    low@.skip(pos as int).skip(4),
                    KeyModifiers { alt: true, ..modifiers },
                ));
                assert(low@.skip(pos as int).skip(4) =~= low@.skip(pos + 4));
            }
            pos = pos + 4;
            modifiers = KeyModifiers { alt: true, ..modifiers };
        } else if shift_prefix_at(low, pos) {
            proof {
                assert(strip_modifiers(low@.skip(pos as int), modifiers) == strip_modifiers(
                    low@.skip(pos as int).skip(6),
                    KeyModifiers { shift: true, ..modifiers },
                ));
                assert(low@.skip(pos as int).skip(6) =~= low@.skip(pos + 6));
            }
            pos = pos + 6;
            modifiers = KeyModifiers { shift: true, ..modifiers };
        } else {
            proof {
                assert(strip_modifiers(low@.skip(pos as int), modifiers) == (
                    low@.skip(pos as int),
                    modifiers,
                ));
            }
            break ;
        }
    }
    (pos, modifiers)
}

/// Split the input from position `pos` on into its `-`-separated tokens.
fn split_tokens(low: &Vec<char>, pos: usize) -> (tokens: Vec<Vec<char>>)
    requires
        pos <= low@.len(),
    ensures
        views_of(tokens@) == split_dash(low@.skip(pos as int)),
        tokens@.len() == split_dash(low@.skip(pos as int)).len(),
{
    let ghost rest = low@.skip(pos as int);
    let low_len = low.len();
    let mut tokens: Vec<Vec<char>> = Vec::new();
    let mut cur: Vec<char> = Vec::new();
    let mut j = pos;
    while j < low_len
        invariant
            pos <= j <= low_len,
            low_len == low@.len(),
            rest == low@.skip(pos as int),
            split_dash(rest) == views_of(tokens@) + seq![cur@ + split_dash(low@.skip(j as int))[0]]
                + split_dash(low@.skip(j as int)).drop_first(),
        decreases low_len - j,
    {
        let ghost rem = low@.skip(j as int);
        let ghost rem2 = low@.skip(j + 1);
        proof {
            lemma_split_dash_len(rem2);
            assert(rem.len() > 0);
            assert(rem[0] == low@[j as int]);
            assert(rem.drop_first() =~= rem2);
        }
        let c = low[j];
        if c == '-' {
            proof {
                assert(split_dash(rem) == seq![Seq::<char>::empty()] + split_dash(rem2));
                assert(cur@ + split_dash(rem)[0] =~= cur@);
                assert(views_of(tokens@.push(cur)) =~= views_of(tokens@).push(cur@));
                assert(views_of(tokens@) + seq![cur@ + split_dash(rem)[0]] + split_dash(
                    rem,
                ).drop_first() =~= views_of(tokens@.push(cur)) + seq![
                    Seq::<char>::empty() + split_dash(rem2)[0],
                ] + split_dash(rem2).drop_first());
            }
            tokens.push(cur);
            cur = Vec::new();
            proof {
                assert(cur@ =~= Seq::<char>::empty());
            }
        } else {
            proof {
                assert(split_dash(rem) == seq![seq![rem[0]] + split_dash(rem2)[0]] + split_dash(
                    rem2,
                ).drop_first());
                assert(cur@ + split_dash(rem)[0] =~= cur@.push(c) + split_dash(rem2)[0]);
                assert(split_dash(rem).drop_first() =~= split_dash(rem2).drop_first());
            }
            cur.push(c);
        }
        j = j + 1;
    }
    proof {
        assert(low@.skip(low@.len() as int) =~= Seq::<char>::empty());
        assert(split_dash(Seq::<char>::empty()) == seq![Seq::<char>::empty()]);
        assert(cur@ + Seq::<char>::empty() =~= cur@);
        assert(views_of(tokens@.push(cur)) =~= views_of(tokens@).push(cur@));
        assert(split_dash(rest) =~= views_of(tokens@).push(cur@));
    }
    tokens.push(cur);
    tokens
}

/// Read every token into its key code, also reporting whether one of them
/// was `backtab`; fails with the first token that denotes no key.
fn parse_code_tokens(tokens: &Vec<Vec<char>>, shift: bool) -> (r: Result<
    (Vec<KeyCode>, bool),
    ParseKeyError,
>)
    ensures
        match r {
            Ok(p) => {
                &&& spec_parse_tokens(views_of(tokens@), shift) == Ok::<Seq<KeyCode>, Seq<char>>(
                    p.0@,
                )
                &&& p.1 == p.0@.contains(KeyCode::BackTab)
                &&& p.0@.len() == tokens@.len()
            },
            Err(e) => spec_parse_tokens(views_of(tokens@), shift) matches Err(t) && e.raw@ == t,
        },
{
    let ghost toks = views_of(tokens@);
    let mut codes: Vec<KeyCode> = Vec::new();
    let mut has_backtab = false;
    let n_tokens = tokens.len();
    proof {
        assert(toks.skip(0) =~= toks);
        assert(codes@ + match spec_parse_tokens(toks, shift) {
            Ok(cs) => cs,
            Err(_) => Seq::empty(),
        } =~= match spec_parse_tokens(toks, shift) {
            Ok(cs) => cs,
            Err(_) => Seq::empty(),
        });
    }
    for ti in 0..n_tokens
        invariant
            n_tokens == tokens@.len(),
            toks == views_of(tokens@),
            codes@.len() == ti,
            has_backtab == codes@.contains(KeyCode::BackTab),
            spec_parse_tokens(toks, shift) == match spec_parse_tokens(toks.skip(ti as int), shift) {
                Ok(rest_codes) => Ok::<Seq<KeyCode>, Seq<char>>(codes@ + rest_codes),
                Err(e) => Err::<Seq<KeyCode>, Seq<char>>(e),
            },
    {
        let ghost tail = toks.skip(ti as int);
        proof {
            assert(tail.len() > 0);
            assert(tail[0] == toks[ti as int]);
            assert(tail.drop_first() =~= toks.skip(ti + 1));
            assert(toks[ti as int] == tokens@[ti as int]@);
        }
        match match_token(tokens[ti].as_slice(), shift) {
            Some(code) => {
                proof {
                    lemma_contains_after_push(codes@, code, KeyCode::BackTab);
                    match spec_parse_tokens(toks.skip(ti + 1), shift) {
                        Ok(rest_codes) => {
                            assert(codes@ + (seq![code] + rest_codes) =~= codes@.push(code)
                                + rest_codes);
                        },
                        Err(_) => {},
                    }
                }
                if matches!(code, KeyCode::BackTab) {
                    has_backtab = true;
                }
                codes.push(code);
            },
            None => {
                proof {
                    assert(spec_parse_tokens(toks, shift) == Err::<Seq<KeyCode>, Seq<char>>(
                        toks[ti as int],
                    ));
                }
                return Err(ParseKeyError { raw: chars_to_string(tokens[ti].as_slice()) });
            },
        }
    }
    proof {
        assert(toks.skip(toks.len() as int) =~= Seq::<Seq<char>>::empty());
        assert(spec_parse_tokens(toks, shift) == Ok::<Seq<KeyCode>, Seq<char>>(codes@)) by {
            assert(codes@ + Seq::<KeyCode>::empty() =~= codes@);
        }
    }
    Ok((codes, has_backtab))
}

/// A sequence contains an element after a push exactly when it did before
/// or the pushed element is the one sought.
proof fn lemma_contains_after_push(s: Seq<KeyCode>, pushed: KeyCode, x: KeyCode)
    ensures
        s.push(pushed).contains(x) == (s.contains(x) || pushed == x),
{
    if pushed == x {
        assert(s.push(pushed)[s.len() as int] == pushed);
        assert(s.push(pushed).contains(x));
    } else if s.contains(x) {
        let w = choose|i: int| 0 <= i < s.len() && s[i] == x;
        assert(s.push(pushed)[w] == x);
        assert(s.push(pushed).contains(x));
    } else {
        assert forall|i: int| 0 <= i < s.push(pushed).len() implies s.push(pushed)[i] != x by {
            if i < s.len() {
                assert(s.push(pushed)[i] == s[i]);
            }
        }
    }
}

/// Parse a string as a key combination, as `spec_parse` describes: strip
/// `ctrl-`/`alt-`/`shift-` prefixes from the lowercased input, then read
/// one to three `-`-separated key tokens. The error carries the offending
/// token.
pub fn parse(raw: &str) -> (r: Result<KeyCombination, ParseKeyError>)
    ensures
        (r is Ok) == (spec_parse(raw@) is Ok),
        r matches Ok(kc) ==> spec_parse(raw@) == Ok::<KeyCombination, Seq<char>>(kc),
        r matches Err(e) ==> spec_parse(raw@) matches Err(t) && e.raw@ == t,
{
    let chars = chars_of_str(raw);
    let low = lower_chars(&chars);
    assert(low@ == lowered(raw@));

    let (pos, modifiers) = strip_modifier_prefixes(&low);
    let ghost rest = low@.skip(pos as int);

    // a lone remaining `-` denotes the hyphen key itself
    if low.len() - pos == 1 && low[pos] == '-' {
        proof {
            assert(rest =~= seq!['-']);
        }
        return Ok(KeyCombination::new(OneToThree::One(KeyCode::Char('-')), modifiers));
    }
    proof {
        assert(rest != seq!['-']);
    }

    let tokens = split_tokens(&low, pos);
    match parse_code_tokens(&tokens, modifiers.shift) {
        Err(e) => Err(e),
        Ok((codes, has_backtab)) => {
            // one to three key codes assemble into the combination
            let modifiers = KeyModifiers { shift: modifiers.shift || has_backtab, ..modifiers };
            let n = codes.len();
            if n == 1 {
                Ok(KeyCombination::new(OneToThree::One(codes[0]), modifiers))
            } else if n == 2 {
                Ok(KeyCombination::new(OneToThree::Two(codes[0], codes[1]), modifiers))
            } else if n == 3 {
                Ok(
                    KeyCombination::new(
                        OneToThree::Three(codes[0], codes[1], codes[2]),
                        modifiers,
                    ),
                )
            } else {
                proof {
                    reveal_strlit("");
                    assert(""@ =~= Seq::<char>::empty());
                }
                Err(ParseKeyError::new(""))
            }
        },
    }
}

} // verus!
