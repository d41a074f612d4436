//! Hotkey bindings: the canonical form of a binding and the validation of
//! the four configured bindings.

use vstd::prelude::*;
use crate::text::{self, chars_of, parse_u8, push_char, split_chars, string_from_chars, to_ascii_upper_char, trim_bounds};

verus! {

pub const MOD_ALT: u8 = 0;
pub const MOD_CTRL: u8 = 1;
pub const MOD_SHIFT: u8 = 2;

/// One `+`-separated piece of a binding, trimmed and upper-cased (ASCII).
#[verifier::opaque]
pub open spec fn normalized_part(p: Seq<char>) -> Seq<char> {
    text::trimmed(p).map_values(|c: char| text::ascii_upper(c))
}

/// The normalized pieces of a binding.
pub open spec fn hotkey_parts(v: Seq<char>) -> Seq<Seq<char>> {
    text::split_on(v, '+').map_values(|p: Seq<char>| normalized_part(p))
}

/// The modifier a normalized piece names: `ALT`, `CTRL` (or `CONTROL`), `SHIFT`.
pub open spec fn modifier_of(p: Seq<char>) -> Option<u8> {
    if p == "ALT"@ {
        Some(MOD_ALT)
    } else if p == "CTRL"@ || p == "CONTROL"@ {
        Some(MOD_CTRL)
    } else if p == "SHIFT"@ {
        Some(MOD_SHIFT)
    } else {
        None
    }
}

/// The function key a normalized piece names: `F` followed by a decimal
/// number from 1 through 12 (leading zeros allowed).
pub open spec fn function_key_of(p: Seq<char>) -> Option<nat> {
    if p.len() >= 1 && p[0] == 'F' {
        match text::bounded(text::decimal_value(p.drop_first()), 255) {
            Some(n) => if 1 <= n <= 12 { Some(n) } else { None },
            None => None,
        }
    } else {
        None
    }
}

/// A binding is valid when every piece is a modifier or a function key, no
/// modifier appears twice, and exactly one piece is a function key.
pub open spec fn binding_valid(parts: Seq<Seq<char>>) -> bool {
    &&& forall|i: int| 0 <= i < parts.len() ==>
        (#[trigger] modifier_of(parts[i])) is Some || function_key_of(parts[i]) is Some
    &&& forall|i: int, j: int| 0 <= i < j < parts.len() && (#[trigger] modifier_of(parts[i])) is Some
        ==> modifier_of(parts[i]) != #[trigger] modifier_of(parts[j])
    &&& exists|i: int| 0 <= i < parts.len() && (#[trigger] modifier_of(parts[i])) is None
    &&& forall|i: int, j: int| 0 <= i < parts.len() && 0 <= j < parts.len()
        && (#[trigger] modifier_of(parts[i])) is None && (#[trigger] modifier_of(parts[j])) is None ==> i == j
}

pub open spec fn has_modifier(parts: Seq<Seq<char>>, m: u8) -> bool {
    exists|i: int| 0 <= i < parts.len() && #[trigger] modifier_of(parts[i]) == Some(m)
}

/// The function key number of a valid binding.
pub open spec fn key_of(parts: Seq<Seq<char>>) -> nat {
    let i = choose|i: int| 0 <= i < parts.len() && (#[trigger] modifier_of(parts[i])) is None;
    function_key_of(parts[i])->Some_0
}

/// Canonical text: the present modifiers in the order `ALT`, `CTRL`, `SHIFT`,
/// each followed by `+`, then `F` and the key number.
pub open spec fn render_hotkey(alt: bool, ctrl: bool, shift: bool, key: nat) -> Seq<char> {
    (if alt { "ALT+"@ } else { Seq::<char>::empty() })
        + (if ctrl { "CTRL+"@ } else { Seq::<char>::empty() })
        + (if shift { "SHIFT+"@ } else { Seq::<char>::empty() })
        + "F"@ + text::int_text(key as int)
}

/// The canonical form of a binding, or `None` when it is not a valid one.
pub open spec fn canonical_hotkey(v: Seq<char>) -> Option<Seq<char>> {
    let parts = hotkey_parts(v);
    if binding_valid(parts) {
        Some(render_hotkey(
            has_modifier(parts, MOD_ALT),
            has_modifier(parts, MOD_CTRL),
            has_modifier(parts, MOD_SHIFT),
            key_of(parts),
        ))
    } else {
        None
    }
}

/// Whether the characters `a` spell `w`.
pub fn is_word(a: &Vec<char>, w: &str) -> (r: bool)
    ensures
        r == (a@ == w@),
{
    let b = chars_of(w);
    if a.len() != b.len() {
        return false;
    }
    let mut i: usize = 0;
    while i < a.len()
        invariant
            b@ == w@,
            a.len() == b.len(),
            i <= a.len(),
            forall|j: int| 0 <= j < i ==> a@[j] == b@[j],
        decreases a.len() - i,
    {
        if a[i] != b[i] {
            return false;
        }
        i = i + 1;
    }
    assert(a@ =~= b@);
    true
}

/// The normalized form of one piece: trimmed, then upper-cased.
fn normalize_part(p: &Vec<char>) -> (n: Vec<char>)
    ensures
        n@ == normalized_part(p@),
{
    let (start, end) = trim_bounds(p);
    let mut out: Vec<char> = Vec::new();
    let mut i = start;
    while i < end
        invariant
            start <= i <= end <= p.len(),
            out@ == p@.subrange(start as int, i as int).map_values(|c: char| text::ascii_upper(c)),
        decreases end - i,
    {
        out.push(to_ascii_upper_char(p[i]));
        i = i + 1;
        assert(out@ =~= p@.subrange(start as int, i as int).map_values(|c: char| text::ascii_upper(c)));
    }
    proof {
        reveal(normalized_part);
    }
    out
}

/// The modifier a normalized piece names, if any.
fn modifier_kind(p: &Vec<char>) -> (m: Option<u8>)
    ensures
        m == modifier_of(p@),
{
    if is_word(p, "ALT") {
        Some(MOD_ALT)
    } else if is_word(p, "CTRL") || is_word(p, "CONTROL") {
        Some(MOD_CTRL)
    } else if is_word(p, "SHIFT") {
        Some(MOD_SHIFT)
    } else {
        None
    }
}

/// The function key a normalized piece names, if any.
fn function_key(p: &Vec<char>) -> (k: Option<u8>)
    ensures
        k matches Some(n) ==> function_key_of(p@) == Some(n as nat),
        k is None ==> function_key_of(p@) is None,
{
    if p.len() == 0 || p[0] != 'F' {
        return None;
    }
    let digits = string_from_chars(p, 1, p.len());
    assert(digits@ =~= p@.drop_first());
    match parse_u8(digits.as_str()) {
        Some(n) => {
            if 1 <= n && n <= 12 { Some(n) } else { None }
        },
        None => None,
    }
}

/// The canonical form of a binding: modifiers in a fixed order followed by
/// the function key, or `None` when the binding is not a valid one.
#[verifier::spinoff_prover]
#[verifier::rlimit(40)]
pub fn normalize_hotkey(value: &str) -> (r: Option<String>)
    ensures
        r matches Some(s) ==> canonical_hotkey(value@) == Some(s@),
        r is None ==> canonical_hotkey(value@) is None,
{
    let chars = chars_of(value);
    let raw_parts = split_chars(&chars, '+');
    let ghost parts = hotkey_parts(value@);
    let mut alt = false;
    let mut ctrl = false;
    let mut shift = false;
    let mut key: Option<u8> = None;
    let ghost mut key_index: int = -1;
    let mut i: usize = 0;
    while i < raw_parts.len()
        invariant
            raw_parts@.len() == parts.len(),
            parts == hotkey_parts(value@),
            forall|k: int| 0 <= k < raw_parts@.len() ==> #[trigger] raw_parts@[k]@ == text::split_on(value@, '+')[k],
            i <= parts.len(),
            forall|k: int| 0 <= k < i ==> (#[trigger] modifier_of(parts[k])) is Some || function_key_of(parts[k]) is Some,
            forall|a: int, b: int| 0 <= a < b < i && (#[trigger] modifier_of(parts[a])) is Some
                ==> modifier_of(parts[a]) != #[trigger] modifier_of(parts[b]),
            alt == exists|k: int| 0 <= k < i && #[trigger] modifier_of(parts[k]) == Some(MOD_ALT),
            ctrl == exists|k: int| 0 <= k < i && #[trigger] modifier_of(parts[k]) == Some(MOD_CTRL),
            shift == exists|k: int| 0 <= k < i && #[trigger] modifier_of(parts[k]) == Some(MOD_SHIFT),
            key is None <==> key_index < 0,
            key_index < i,
            key_index >= 0 ==> modifier_of(parts[key_index]) is None,
            key matches Some(n) ==> function_key_of(parts[key_index]) == Some(n as nat),
            forall|k: int| 0 <= k < i && k != key_index ==> (#[trigger] modifier_of(parts[k])) is Some,
        decreases parts.len() - i,
    {
        let part = normalize_part(&raw_parts[i]);
        assert(part@ == parts[i as int]);
        let kind = modifier_kind(&part);
        let duplicate = match kind {
            Some(m) => (m == MOD_ALT && alt) || (m == MOD_CTRL && ctrl) || (m == MOD_SHIFT && shift),
            None => false,
        };
        if kind.is_some() && !duplicate {
            let m = kind.unwrap();
            if m == MOD_ALT {
                alt = true;
            } else if m == MOD_CTRL {
                ctrl = true;
            } else {
                shift = true;
            }
        } else {
            if key.is_some() || duplicate {
                proof {
                    if duplicate {
                        let m = modifier_of(parts[i as int]);
                        let k = choose|k: int| 0 <= k < i && #[trigger] modifier_of(parts[k]) == m;
                        assert(modifier_of(parts[k]) is Some && modifier_of(parts[k]) == modifier_of(parts[i as int]));
                    } else {
                        assert(modifier_of(parts[key_index]) is None && modifier_of(parts[i as int]) is None);
                    }
                    assert(!binding_valid(parts));
                }
                return None;
            }
            match function_key(&part) {
                Some(n) => {
                    key = Some(n);
                    proof {
                        key_index = i as int;
                    }
                },
                None => {
                    proof {
                        assert(modifier_of(parts[i as int]) is None && function_key_of(parts[i as int]) is None);
                        assert(!binding_valid(parts));
                    }
                    return None;
                },
            }
        }
        i = i + 1;
    }
    match key {
        Some(n) => {
            let mut out = String::new();
            if alt {
                text::push_str(&mut out, "ALT+");
            }
            if ctrl {
                text::push_str(&mut out, "CTRL+");
            }
            if shift {
                text::push_str(&mut out, "SHIFT+");
            }
            text::push_str(&mut out, "F");
            text::push_int(&mut out, n as i64);
            proof {
                assert(binding_valid(parts));
                let c = choose|c: int| 0 <= c < parts.len() && (#[trigger] modifier_of(parts[c])) is None;
                assert(c == key_index);
                assert(key_of(parts) == n as nat);
                assert(out@ =~= render_hotkey(alt, ctrl, shift, n as nat));
            }
            Some(out)
        },
        None => {
            proof {
                assert(forall|k: int| 0 <= k < parts.len() ==> (#[trigger] modifier_of(parts[k])) is Some);
                assert(!binding_valid(parts));
            }
            None
        },
    }
}


/// The registration flag of a modifier: Alt 1, Ctrl 2, Shift 4.
pub open spec fn modifier_flag(m: u8) -> u32 {
    if m == MOD_ALT { 1u32 } else if m == MOD_CTRL { 2u32 } else { 4u32 }
}

/// Modifier flags and key code after the pieces `parts`, in order, as the
/// host registers a binding: modifiers add their flag (repeats allowed), a
/// function key sets the key (the last one counts), anything else makes the
/// binding unusable (`None`).
pub open spec fn host_hotkey_fold(parts: Seq<Seq<char>>) -> Option<(u32, Option<u32>)>
    decreases parts.len(),
{
    if parts.len() == 0 {
        Some((0u32, None))
    } else {
        match host_hotkey_fold(parts.drop_last()) {
            None => None,
            Some((mods, key)) => {
                let p = parts.last();
                match modifier_of(p) {
                    Some(m) => Some((mods | modifier_flag(m), key)),
                    None => match function_key_of(p) {
                        Some(n) => Some((mods, Some((0x6f + n) as u32))),
                        None => None,
                    },
                }
            },
        }
    }
}

/// The modifier flags and virtual-key code the host registers for a binding.
pub open spec fn host_hotkey_spec(value: Seq<char>) -> Option<(u32, u32)> {
    match host_hotkey_fold(hotkey_parts(value)) {
        Some((mods, Some(key))) => Some((mods, key)),
        _ => None,
    }
}

proof fn lemma_host_fold_stays_none(parts: Seq<Seq<char>>, i: int)
    requires
        0 <= i <= parts.len(),
        host_hotkey_fold(parts.subrange(0, i)) is None,
    ensures
        host_hotkey_fold(parts) is None,
    decreases parts.len() - i,
{
    if i < parts.len() {
        let next = parts.subrange(0, i + 1);
        assert(next.drop_last() =~= parts.subrange(0, i));
        lemma_host_fold_stays_none(parts, i + 1);
    } else {
        assert(parts.subrange(0, i) =~= parts);
    }
}

/// Reads a binding into the modifier flags and virtual-key code of a
/// system-wide hotkey; `None` when a piece is neither a modifier nor a
/// function key, or no function key is given.
pub fn parse_hotkey(value: &str) -> (r: Option<(u32, u32)>)
    ensures
        r == host_hotkey_spec(value@),
{
    let chars = chars_of(value);
    let raw_parts = split_chars(&chars, '+');
    let ghost parts = hotkey_parts(value@);
    let mut modifiers: u32 = 0;
    let mut key: Option<u32> = None;
    let mut i: usize = 0;
    while i < raw_parts.len()
        invariant
            raw_parts@.len() == parts.len(),
            parts == hotkey_parts(value@),
            forall|k: int| 0 <= k < raw_parts@.len() ==> #[trigger] raw_parts@[k]@ == text::split_on(value@, '+')[k],
            i <= parts.len(),
            host_hotkey_fold(parts.subrange(0, i as int)) == Some((modifiers, key)),
        decreases parts.len() - i,
    {
        let part = normalize_part(&raw_parts[i]);
        proof {
            assert(part@ == parts[i as int]);
            let next = parts.subrange(0, i + 1);
            assert(next.drop_last() =~= parts.subrange(0, i as int));
            assert(next.last() == part@);
        }
        match modifier_kind(&part) {
            Some(m) => {
                let flag: u32 = if m == MOD_ALT { 1 } else if m == MOD_CTRL { 2 } else { 4 };
                modifiers = modifiers | flag;
            },
            None => match function_key(&part) {
                Some(n) => {
                    key = Some(0x6f + n as u32);
                },
                None => {
                    proof {
                        lemma_host_fold_stays_none(parts, i + 1);
                    }
                    return None;
                },
            },
        }
        i = i + 1;
    }
    proof {
        assert(parts.subrange(0, parts.len() as int) =~= parts);
    }
    match key {
        Some(k) => Some((modifiers, k)),
        None => None,
    }
}


proof fn lemma_split_no_sep(t: Seq<char>)
    requires
        !t.contains('+'),
    ensures
        text::split_on(t, '+') == seq![t],
    decreases t.len(),
{
    if t.len() > 0 {
        let r = t.drop_last();
        assert(!r.contains('+')) by {
            if r.contains('+') {
                let i = choose|i: int| 0 <= i < r.len() && r[i] == '+';
                assert(t[i] == '+');
            }
        }
        lemma_split_no_sep(r);
        assert(t[t.len() - 1] == t.last());
        assert(t.last() != '+');
        assert(r.push(t.last()) =~= t);
        assert(text::split_on(t, '+') == seq![r].update(0, r.push(t.last())));
        assert(text::split_on(t, '+') =~= seq![t]);
    } else {
        assert(t =~= Seq::<char>::empty());
    }
}

/// Splitting a piece without `+`, a `+` and a rest gives the piece followed
/// by the pieces of the rest.
proof fn lemma_split_prepend(m: Seq<char>, rest: Seq<char>)
    requires
        !m.contains('+'),
    ensures
        text::split_on(m + seq!['+'] + rest, '+') == seq![m] + text::split_on(rest, '+'),
    decreases rest.len(),
{
    let s = m + seq!['+'] + rest;
    if rest.len() == 0 {
        lemma_split_no_sep(m);
        assert(s.drop_last() =~= m);
        assert(s.last() == '+');
        assert(text::split_on(s, '+') =~= seq![m] + text::split_on(rest, '+'));
    } else {
        let r = rest.drop_last();
        lemma_split_prepend(m, r);
        assert(s.drop_last() =~= m + seq!['+'] + r);
        assert(s.last() == rest.last());
        text::lemma_split_on_nonempty(r, '+');
        assert(text::split_on(s, '+') =~= seq![m] + text::split_on(rest, '+'));
    }
}

proof fn lemma_digit_value_of_char(x: nat)
    requires
        x < 10,
    ensures
        text::digit_value(text::digit_char(x)) == x,
{
    assert('0' as nat == 48);
    assert('9' as nat == 57);
    if x == 0 { assert('0' as nat == 48); }
    else if x == 1 { assert('1' as nat == 49); }
    else if x == 2 { assert('2' as nat == 50); }
    else if x == 3 { assert('3' as nat == 51); }
    else if x == 4 { assert('4' as nat == 52); }
    else if x == 5 { assert('5' as nat == 53); }
    else if x == 6 { assert('6' as nat == 54); }
    else if x == 7 { assert('7' as nat == 55); }
    else if x == 8 { assert('8' as nat == 56); }
    else { assert('9' as nat == 57); }
}

/// The decimal text of a number reads back as that number.
proof fn lemma_decimal_value_of_digits(n: nat)
    ensures
        text::digits_value(text::decimal_digits(n), 10) == n,
        text::decimal_value(text::decimal_digits(n)) == Some(n),
    decreases n,
{
    let d = text::decimal_digits(n);
    text::lemma_decimal_digits_len(n);
    text::lemma_decimal_digits_are_digits(n);
    lemma_digit_value_of_char(n % 10);
    if n >= 10 {
        lemma_decimal_value_of_digits(n / 10);
        assert(d.drop_last() =~= text::decimal_digits(n / 10));
        assert(d.last() == text::digit_char(n % 10));
        assert(n == (n / 10) * 10 + n % 10);
        assert(text::digits_value(d, 10) == text::digits_value(d.drop_last(), 10) * 10 + text::digit_value(d.last()));
    } else {
        assert(d.drop_last() =~= Seq::<char>::empty());
        assert(d.last() == text::digit_char(n));
        assert(text::digits_value(d, 10) == text::digits_value(d.drop_last(), 10) * 10 + text::digit_value(d.last()));
    }
    assert('0' <= d[0] <= '9');
    assert(d[0] != '+');
    assert(forall|i: int| 0 <= i < d.len() ==> '0' <= #[trigger] d[i] <= '9');
    reveal(text::decimal_value);
}


/// A piece of upper-case letters and digits: its own normalized form, and
/// free of `+`.
proof fn lemma_plain_part(p: Seq<char>)
    requires
        p.len() > 0,
        forall|k: int| 0 <= k < p.len() ==> ('A' <= #[trigger] p[k] <= 'Z') || ('0' <= p[k] <= '9'),
    ensures
        normalized_part(p) == p,
        !p.contains('+'),
{
    reveal(normalized_part);
    assert(('A' <= p[0] <= 'Z') || ('0' <= p[0] <= '9'));
    assert(('A' <= p[p.len() - 1] <= 'Z') || ('0' <= p[p.len() - 1] <= '9'));
    text::lemma_trimmed_unchanged(p);
    assert(p.map_values(|c: char| text::ascii_upper(c)) =~= p);
    if p.contains('+') {
        let i = choose|i: int| 0 <= i < p.len() && p[i] == '+';
        assert(('A' <= p[i] <= 'Z') || ('0' <= p[i] <= '9'));
    }
}

/// The text of a function key: `F` and the key number.
pub open spec fn function_key_text(key: nat) -> Seq<char> {
    "F"@ + text::int_text(key as int)
}

/// The pieces of a canonical binding, in order.
pub open spec fn canonical_pieces(alt: bool, ctrl: bool, shift: bool, key: nat) -> Seq<Seq<char>> {
    (if alt { seq!["ALT"@] } else { Seq::<Seq<char>>::empty() })
        + (if ctrl { seq!["CTRL"@] } else { Seq::<Seq<char>>::empty() })
        + (if shift { seq!["SHIFT"@] } else { Seq::<Seq<char>>::empty() })
        + seq![function_key_text(key)]
}

proof fn lemma_function_key_text(key: nat)
    requires
        1 <= key <= 12,
    ensures
        normalized_part(function_key_text(key)) == function_key_text(key),
        !function_key_text(key).contains('+'),
        function_key_of(function_key_text(key)) == Some(key),
        modifier_of(function_key_text(key)) is None,
        2 <= function_key_text(key).len() <= 3,
        function_key_text(key)[0] == 'F',
{
    reveal_strlit("F");
    reveal_strlit("ALT");
    reveal_strlit("CTRL");
    reveal_strlit("CONTROL");
    reveal_strlit("SHIFT");
    let d = text::decimal_digits(key);
    let f = function_key_text(key);
    text::lemma_decimal_digits_are_digits(key);
    text::lemma_decimal_digits_len(key);
    if key >= 10 {
        assert(d.len() == text::decimal_digits(key / 10).len() + 1);
        assert(text::decimal_digits(key / 10).len() == 1);
    }
    assert(f == "F"@ + d);
    assert forall|k: int| 0 <= k < f.len() implies ('A' <= #[trigger] f[k] <= 'Z') || ('0' <= f[k] <= '9') by {
        if k > 0 {
            assert(f[k] == d[k - 1]);
        }
    }
    lemma_plain_part(f);
    assert(f.drop_first() =~= d);
    lemma_decimal_value_of_digits(key);
    assert("ALT"@[0] == 'A');
    assert(f != "ALT"@);
}

proof fn lemma_render_parts(alt: bool, ctrl: bool, shift: bool, key: nat)
    requires
        1 <= key <= 12,
    ensures
        hotkey_parts(render_hotkey(alt, ctrl, shift, key)) == canonical_pieces(alt, ctrl, shift, key),
{
    reveal_strlit("ALT+");
    reveal_strlit("CTRL+");
    reveal_strlit("SHIFT+");
    reveal_strlit("ALT");
    reveal_strlit("CTRL");
    reveal_strlit("SHIFT");
    let fk = function_key_text(key);
    lemma_function_key_text(key);
    lemma_plain_part("ALT"@);
    lemma_plain_part("CTRL"@);
    lemma_plain_part("SHIFT"@);
    lemma_split_no_sep(fk);
    let s3 = if shift { "SHIFT"@ + seq!['+'] + fk } else { fk };
    if shift {
        lemma_split_prepend("SHIFT"@, fk);
    }
    let p3 = (if shift { seq!["SHIFT"@] } else { Seq::<Seq<char>>::empty() }) + seq![fk];
    assert(text::split_on(s3, '+') =~= p3);
    let s2 = if ctrl { "CTRL"@ + seq!['+'] + s3 } else { s3 };
    if ctrl {
        lemma_split_prepend("CTRL"@, s3);
    }
    let p2 = (if ctrl { seq!["CTRL"@] } else { Seq::<Seq<char>>::empty() }) + p3;
    assert(text::split_on(s2, '+') =~= p2);
    let s1 = if alt { "ALT"@ + seq!['+'] + s2 } else { s2 };
    if alt {
        lemma_split_prepend("ALT"@, s2);
    }
    let p1 = (if alt { seq!["ALT"@] } else { Seq::<Seq<char>>::empty() }) + p2;
    assert(text::split_on(s1, '+') =~= p1);
    assert("ALT+"@ =~= "ALT"@ + seq!['+']);
    assert("CTRL+"@ =~= "CTRL"@ + seq!['+']);
    assert("SHIFT+"@ =~= "SHIFT"@ + seq!['+']);
    assert(render_hotkey(alt, ctrl, shift, key) =~= s1);
    assert(p1 =~= canonical_pieces(alt, ctrl, shift, key));
    assert forall|i: int| 0 <= i < p1.len() implies normalized_part(#[trigger] p1[i]) == p1[i] by {
    }
    assert(p1.map_values(|p: Seq<char>| normalized_part(p)) =~= p1);
}


proof fn lemma_canonical_pieces_valid(alt: bool, ctrl: bool, shift: bool, key: nat)
    requires
        1 <= key <= 12,
    ensures
        binding_valid(canonical_pieces(alt, ctrl, shift, key)),
        has_modifier(canonical_pieces(alt, ctrl, shift, key), MOD_ALT) == alt,
        has_modifier(canonical_pieces(alt, ctrl, shift, key), MOD_CTRL) == ctrl,
        has_modifier(canonical_pieces(alt, ctrl, shift, key), MOD_SHIFT) == shift,
        key_of(canonical_pieces(alt, ctrl, shift, key)) == key,
{
    reveal_strlit("ALT");
    reveal_strlit("CTRL");
    reveal_strlit("CONTROL");
    reveal_strlit("SHIFT");
    lemma_function_key_text(key);
    let fk = function_key_text(key);
    let p = canonical_pieces(alt, ctrl, shift, key);
    let last = p.len() - 1;
    assert("ALT"@.len() == 3);
    assert("CTRL"@.len() == 4);
    assert("CONTROL"@.len() == 7);
    assert("SHIFT"@.len() == 5);
    assert(modifier_of("ALT"@) == Some(MOD_ALT));
    assert(modifier_of("CTRL"@) == Some(MOD_CTRL));
    assert(modifier_of("SHIFT"@) == Some(MOD_SHIFT));
    assert(p[last] == fk);
    // Every piece before the last is the name of a present modifier, in the
    // order ALT, CTRL, SHIFT.
    assert forall|i: int| 0 <= i < last implies
        (#[trigger] p[i] == "ALT"@ && alt && i == 0)
        || (p[i] == "CTRL"@ && ctrl && i == (if alt { 1int } else { 0int }))
        || (p[i] == "SHIFT"@ && shift && i == (if alt { 1int } else { 0int }) + (if ctrl { 1int } else { 0int })) by {
    }
    assert forall|i: int| 0 <= i < p.len() implies
        (#[trigger] modifier_of(p[i])) is Some || function_key_of(p[i]) is Some by {
        if i < last {
            assert(p[i] == "ALT"@ || p[i] == "CTRL"@ || p[i] == "SHIFT"@);
        }
    }
    assert forall|i: int, j: int| 0 <= i < j < p.len() && (#[trigger] modifier_of(p[i])) is Some
        implies modifier_of(p[i]) != #[trigger] modifier_of(p[j]) by {
        if j == last {
        } else {
            assert(p[i] == "ALT"@ || p[i] == "CTRL"@ || p[i] == "SHIFT"@);
            assert(p[j] == "ALT"@ || p[j] == "CTRL"@ || p[j] == "SHIFT"@);
        }
    }
    assert(modifier_of(p[last]) is None);
    assert forall|i: int, j: int| 0 <= i < p.len() && 0 <= j < p.len()
        && (#[trigger] modifier_of(p[i])) is None && (#[trigger] modifier_of(p[j])) is None implies i == j by {
        if i < last {
            assert(p[i] == "ALT"@ || p[i] == "CTRL"@ || p[i] == "SHIFT"@);
        }
        if j < last {
            assert(p[j] == "ALT"@ || p[j] == "CTRL"@ || p[j] == "SHIFT"@);
        }
    }
    assert(binding_valid(p));
    if alt {
        assert(modifier_of(p[0]) == Some(MOD_ALT));
    } else {
        assert forall|i: int| 0 <= i < p.len() implies #[trigger] modifier_of(p[i]) != Some(MOD_ALT) by {
            if i < last {
                assert(p[i] == "CTRL"@ || p[i] == "SHIFT"@);
            }
        }
    }
    if ctrl {
        let c: int = if alt { 1 } else { 0 };
        assert(p[c] == "CTRL"@);
        assert(modifier_of(p[c]) == Some(MOD_CTRL));
    } else {
        assert forall|i: int| 0 <= i < p.len() implies #[trigger] modifier_of(p[i]) != Some(MOD_CTRL) by {
            if i < last {
                assert(p[i] == "ALT"@ || p[i] == "SHIFT"@);
            }
        }
    }
    if shift {
        let c: int = (if alt { 1int } else { 0int }) + (if ctrl { 1int } else { 0int });
        assert(p[c] == "SHIFT"@);
        assert(modifier_of(p[c]) == Some(MOD_SHIFT));
    } else {
        assert forall|i: int| 0 <= i < p.len() implies #[trigger] modifier_of(p[i]) != Some(MOD_SHIFT) by {
            if i < last {
                assert(p[i] == "ALT"@ || p[i] == "CTRL"@);
            }
        }
    }
    let k = choose|i: int| 0 <= i < p.len() && (#[trigger] modifier_of(p[i])) is None;
    assert(k == last);
}

/// Normalizing a binding's canonical form gives that form back: the
/// canonical form of a valid binding is itself valid and canonical.
pub proof fn lemma_normalize_hotkey_idempotent(v: Seq<char>)
    ensures
        canonical_hotkey(v) matches Some(s) ==> canonical_hotkey(s) == Some(s),
{
    let parts = hotkey_parts(v);
    if binding_valid(parts) {
        let k = choose|i: int| 0 <= i < parts.len() && (#[trigger] modifier_of(parts[i])) is None;
        assert(function_key_of(parts[k]) is Some);
        let key = key_of(parts);
        let alt = has_modifier(parts, MOD_ALT);
        let ctrl = has_modifier(parts, MOD_CTRL);
        let shift = has_modifier(parts, MOD_SHIFT);
        assert(1 <= key <= 12);
        lemma_render_parts(alt, ctrl, shift, key);
        lemma_canonical_pieces_valid(alt, ctrl, shift, key);
    }
}

} // verus!
