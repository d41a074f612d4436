//! Small verified text helpers: decimal rendering, trimming, ASCII case
//! mapping and the few std string operations the library builds on.

use vstd::prelude::*;
use vstd::string::*;

verus! {

/// Decimal digits of `n`, most significant first (no sign, no leading zeros).
pub open spec fn decimal_digits(n: nat) -> Seq<char>
    decreases n,
{
    if n < 10 {
        seq![digit_char(n)]
    } else {
        decimal_digits(n / 10).push(digit_char(n % 10))
    }
}

pub open spec fn digit_char(d: nat) -> char {
    if d == 0 { '0' }
    else if d == 1 { '1' }
    else if d == 2 { '2' }
    else if d == 3 { '3' }
    else if d == 4 { '4' }
    else if d == 5 { '5' }
    else if d == 6 { '6' }
    else if d == 7 { '7' }
    else if d == 8 { '8' }
    else { '9' }
}

/// Decimal text of a signed integer, with a leading `-` when negative.
pub open spec fn int_text(v: int) -> Seq<char> {
    if v < 0 {
        seq!['-'] + decimal_digits((-v) as nat)
    } else {
        decimal_digits(v as nat)
    }
}

/// Whether `c` has the Unicode `White_Space` property, the set that
/// `char::is_whitespace` tests: tab through carriage return, space, next
/// line, no-break space, ogham space mark, en quad through hair space, line
/// and paragraph separators, narrow no-break space, medium mathematical
/// space and ideographic space.
pub open spec fn is_white_space(c: char) -> bool {
    ||| ('\t' <= c <= '\r')
    ||| c == ' '
    ||| c == '\u{85}'
    ||| c == '\u{a0}'
    ||| c == '\u{1680}'
    ||| ('\u{2000}' <= c <= '\u{200a}')
    ||| c == '\u{2028}'
    ||| c == '\u{2029}'
    ||| c == '\u{202f}'
    ||| c == '\u{205f}'
    ||| c == '\u{3000}'
}

/// Whether `c` is whitespace, as `char::is_whitespace` decides it.
pub(crate) fn char_is_whitespace(c: char) -> (r: bool)
    ensures
        r == is_white_space(c),
{
    ('\t' <= c && c <= '\r') || c == ' ' || c == '\u{85}' || c == '\u{a0}' || c == '\u{1680}'
        || ('\u{2000}' <= c && c <= '\u{200a}') || c == '\u{2028}' || c == '\u{2029}' || c == '\u{202f}'
        || c == '\u{205f}' || c == '\u{3000}'
}

/// `String::push`: appends one character.
#[verifier::external_body]
pub(crate) fn push_char(s: &mut String, c: char)
    ensures
        final(s)@ == old(s)@.push(c),
{
    s.push(c);
}

/// What `String::from_utf8_lossy` decodes from `bytes`.
pub uninterp spec fn lossy_utf8(bytes: Seq<u8>) -> Seq<char>;

pub open spec fn all_ascii_bytes(bytes: Seq<u8>) -> bool {
    forall|i: int| 0 <= i < bytes.len() ==> bytes[i] < 128
}

/// `String::from_utf8_lossy`, made owned. The result is named; for bytes that
/// are all ASCII (which are valid UTF-8) it is those characters one for one,
/// as the std documentation states for valid input.
#[verifier::external_body]
pub(crate) fn decode_utf8_lossy(bytes: &[u8]) -> (s: String)
    ensures
        s@ == lossy_utf8(bytes@),
        all_ascii_bytes(bytes@) ==> s@ == bytes@.map_values(|b: u8| b as char),
{
    String::from_utf8_lossy(bytes).into_owned()
}

/// The characters of `s`.
pub fn chars_of(s: &str) -> (chars: Vec<char>)
    ensures
        chars@ == s@,
{
    let n = s.unicode_len();
    let mut out: Vec<char> = Vec::with_capacity(n);
    let mut i: usize = 0;
    while i < n
        invariant
            n == s@.len(),
            i <= n,
            out@ == s@.subrange(0, i as int),
        decreases n - i,
    {
        out.push(s.get_char(i));
        i = i + 1;
    }
    assert(out@ =~= s@);
    out
}

/// A `String` holding exactly `chars[from..to]`.
pub fn string_from_chars(chars: &Vec<char>, from: usize, to: usize) -> (s: String)
    requires
        from <= to <= chars.len(),
    ensures
        s@ == chars@.subrange(from as int, to as int),
{
    let mut out = String::new();
    let mut i = from;
    while i < to
        invariant
            from <= i <= to <= chars.len(),
            out@ == chars@.subrange(from as int, i as int),
        decreases to - i,
    {
        push_char(&mut out, chars[i]);
        i = i + 1;
        assert(out@ =~= chars@.subrange(from as int, i as int));
    }
    out
}

/// Appends `t` to `s`.
pub fn push_str(s: &mut String, t: &str)
    ensures
        final(s)@ == old(s)@ + t@,
{
    s.append(t);
}

pub(crate) proof fn lemma_decimal_digits_len(n: nat)
    ensures
        decimal_digits(n).len() >= 1,
    decreases n,
{
    if n >= 10 {
        lemma_decimal_digits_len(n / 10);
    }
}

proof fn lemma_digit_char(x: nat, y: nat)
    requires
        x < 10,
        y < 10,
    ensures
        '0' <= digit_char(x) <= '9',
        digit_char(x) == digit_char(y) ==> x == y,
{
}

/// Every character of a decimal text is a digit.
pub(crate) proof fn lemma_decimal_digits_are_digits(n: nat)
    ensures
        forall|k: int| 0 <= k < decimal_digits(n).len() ==> '0' <= #[trigger] decimal_digits(n)[k] <= '9',
    decreases n,
{
    lemma_digit_char(n % 10, 0);
    if n >= 10 {
        lemma_decimal_digits_are_digits(n / 10);
        let d = decimal_digits(n);
        let p = decimal_digits(n / 10);
        assert(d == p.push(digit_char(n % 10)));
        assert forall|k: int| 0 <= k < d.len() implies '0' <= #[trigger] d[k] <= '9' by {
            if k < p.len() {
                assert(d[k] == p[k]);
            }
        }
    } else {
        assert(decimal_digits(n)[0] == digit_char(n));
    }
}

/// Different numbers have different decimal texts.
pub(crate) proof fn lemma_decimal_digits_injective(a: nat, b: nat)
    requires
        decimal_digits(a) == decimal_digits(b),
    ensures
        a == b,
    decreases a,
{
    let da = decimal_digits(a);
    let db = decimal_digits(b);
    if a >= 10 {
        lemma_decimal_digits_len(a / 10);
    }
    if b >= 10 {
        lemma_decimal_digits_len(b / 10);
    }
    lemma_digit_char(a % 10, b % 10);
    if a >= 10 && b >= 10 {
        assert(da.drop_last() =~= decimal_digits(a / 10));
        assert(db.drop_last() =~= decimal_digits(b / 10));
        assert(da.last() == digit_char(a % 10));
        assert(db.last() == digit_char(b % 10));
        lemma_decimal_digits_injective(a / 10, b / 10);
        assert(a == 10 * (a / 10) + a % 10);
        assert(b == 10 * (b / 10) + b % 10);
    } else if a >= 10 {
        assert(da.len() == decimal_digits(a / 10).len() + 1);
        assert(db.len() == 1);
    } else if b >= 10 {
        assert(db.len() == decimal_digits(b / 10).len() + 1);
        assert(da.len() == 1);
    } else {
        assert(da[0] == digit_char(a));
        assert(db[0] == digit_char(b));
        lemma_digit_char(a, b);
    }
}

fn digit_to_char(d: u64) -> (c: char)
    requires
        d < 10,
    ensures
        c == digit_char(d as nat),
{
    if d == 0 { '0' }
    else if d == 1 { '1' }
    else if d == 2 { '2' }
    else if d == 3 { '3' }
    else if d == 4 { '4' }
    else if d == 5 { '5' }
    else if d == 6 { '6' }
    else if d == 7 { '7' }
    else if d == 8 { '8' }
    else { '9' }
}

/// Appends the decimal digits of `n`.
pub fn push_digits(s: &mut String, n: u64)
    ensures
        final(s)@ == old(s)@ + decimal_digits(n as nat),
    decreases n,
{
    if n < 10 {
        push_char(s, digit_to_char(n));
        assert(decimal_digits(n as nat) =~= seq![digit_char(n as nat)]);
    } else {
        push_digits(s, n / 10);
        push_char(s, digit_to_char(n % 10));
        assert(final(s)@ =~= old(s)@ + decimal_digits(n as nat)) by {
            assert(decimal_digits(n as nat) == decimal_digits((n / 10) as nat).push(digit_char((n % 10) as nat)));
        }
    }
}

/// Appends the decimal text of `v`.
pub fn push_int(s: &mut String, v: i64)
    ensures
        final(s)@ == old(s)@ + int_text(v as int),
{
    if v < 0 {
        push_char(s, '-');
        let magnitude: u64 = if v == i64::MIN { 9223372036854775808u64 } else { (-v) as u64 };
        push_digits(s, magnitude);
        assert(final(s)@ =~= old(s)@ + int_text(v as int));
    } else {
        push_digits(s, v as u64);
    }
}

/// The decimal text of `v`, as `v.to_string()` renders it.
pub fn int_to_string(v: i64) -> (s: String)
    ensures
        s@ == int_text(v as int),
{
    let mut s = String::new();
    push_int(&mut s, v);
    assert(s@ =~= int_text(v as int));
    s
}

/// `c` with ASCII lower-case letters raised; every other character kept.
pub open spec fn ascii_upper(c: char) -> char {
    if 'a' <= c <= 'z' { ((c as u32) - 32) as char } else { c }
}

/// `c` with ASCII upper-case letters lowered; every other character kept.
pub open spec fn ascii_lower(c: char) -> char {
    if 'A' <= c <= 'Z' { ((c as u32) + 32) as char } else { c }
}

pub fn to_ascii_upper_char(c: char) -> (r: char)
    ensures
        r == ascii_upper(c),
{
    if 'a' <= c && c <= 'z' {
        let code = (c as u32) - 32;
        assert('A' as u32 <= code <= 'Z' as u32);
        let r = char_from_ascii(code);
        r
    } else {
        c
    }
}

pub fn to_ascii_lower_char(c: char) -> (r: char)
    ensures
        r == ascii_lower(c),
{
    if 'A' <= c && c <= 'Z' {
        let code = (c as u32) + 32;
        char_from_ascii(code)
    } else {
        c
    }
}

fn char_from_ascii(code: u32) -> (c: char)
    requires
        code < 128,
    ensures
        c == code as char,
{
    let b: u8 = code as u8;
    b as char
}

/// Leading and trailing whitespace removed, as `str::trim` does.
pub open spec fn trimmed(s: Seq<char>) -> Seq<char> {
    s.subrange(trim_start_index(s), trim_end_index(s))
}

/// Index of the first non-whitespace character (or the length).
#[verifier::opaque]
pub open spec fn trim_start_index(s: Seq<char>) -> int {
    if exists|i: int| 0 <= i < s.len() && !is_white_space(#[trigger] s[i]) {
        choose|i: int| 0 <= i < s.len() && !is_white_space(#[trigger] s[i])
            && forall|j: int| 0 <= j < i ==> is_white_space(#[trigger] s[j])
    } else {
        s.len() as int
    }
}

/// One past the last non-whitespace character (or the start index).
#[verifier::opaque]
pub open spec fn trim_end_index(s: Seq<char>) -> int {
    if exists|i: int| 0 <= i < s.len() && !is_white_space(#[trigger] s[i]) {
        choose|i: int| 0 < i <= s.len() && !is_white_space(#[trigger] s[i - 1])
            && forall|j: int| i <= j < s.len() ==> is_white_space(#[trigger] s[j])
    } else {
        s.len() as int
    }
}

/// Bounds of the trimmed part of `chars`: `(start, end)`.
pub fn trim_bounds(chars: &Vec<char>) -> (bounds: (usize, usize))
    ensures
        bounds.0 as int == trim_start_index(chars@),
        bounds.1 as int == trim_end_index(chars@),
        bounds.0 <= bounds.1 <= chars.len(),
        bounds.0 < bounds.1 ==> !is_white_space(chars@[bounds.0 as int]) && !is_white_space(chars@[bounds.1 - 1]),
{
    let n = chars.len();
    let mut start: usize = 0;
    while start < n && char_is_whitespace(chars[start])
        invariant
            start <= n == chars.len(),
            forall|j: int| 0 <= j < start ==> is_white_space(#[trigger] chars@[j]),
        decreases n - start,
    {
        start = start + 1;
    }
    if start == n {
        proof {
            reveal(trim_start_index);
            reveal(trim_end_index);
        }
        assert(!exists|i: int| 0 <= i < chars@.len() && !is_white_space(#[trigger] chars@[i]));
        return (n, n);
    }
    let mut end: usize = n;
    while end > start && char_is_whitespace(chars[end - 1])
        invariant
            start < n == chars.len(),
            start < end <= n || end == start,
            !is_white_space(chars@[start as int]),
            forall|j: int| end <= j < n ==> is_white_space(#[trigger] chars@[j]),
        decreases end,
    {
        end = end - 1;
    }
    proof {
        reveal(trim_start_index);
        reveal(trim_end_index);
        if end == start {
            assert(false);
        }
        let s = chars@;
        assert(0 <= start < s.len() && !is_white_space(s[start as int]));
        let a = trim_start_index(s);
        assert(forall|j: int| 0 <= j < a ==> is_white_space(#[trigger] s[j]));
        assert(!is_white_space(s[a]));
        if a < start {
            assert(is_white_space(s[a]));
        }
        if a > start {
            assert(is_white_space(s[start as int]));
        }
        assert(0 < end <= s.len() && !is_white_space(s[end - 1]));
        let b = trim_end_index(s);
        assert(!is_white_space(s[b - 1]));
        if b < end {
            assert(is_white_space(s[end - 1]));
        }
        if b > end {
            assert(is_white_space(s[b - 1]));
        }
    }
    (start, end)
}

/// A text with no whitespace at either end is its own trimmed form.
pub proof fn lemma_trimmed_unchanged(s: Seq<char>)
    requires
        s.len() > 0,
        !is_white_space(s[0]),
        !is_white_space(s.last()),
    ensures
        trimmed(s) == s,
{
    reveal(trim_start_index);
    reveal(trim_end_index);
    let n = s.len() as int;
    assert(0 <= 0 < n && !is_white_space(s[0]) && forall|j: int| 0 <= j < 0 ==> is_white_space(#[trigger] s[j]));
    let a = trim_start_index(s);
    if a > 0 {
        assert(is_white_space(s[0]));
    }
    assert(0 < n <= n && !is_white_space(s[n - 1]) && forall|j: int| n <= j < n ==> is_white_space(#[trigger] s[j]));
    let b = trim_end_index(s);
    if b < n {
        assert(is_white_space(s[n - 1]));
    }
    assert(s.subrange(0, n) =~= s);
}

/// `s.trim().to_string()`.
pub fn trim_to_string(s: &str) -> (t: String)
    ensures
        t@ == trimmed(s@),
{
    let chars = chars_of(s);
    let (start, end) = trim_bounds(&chars);
    string_from_chars(&chars, start, end)
}

/// The pieces of `s` between occurrences of `sep`, as `str::split` yields
/// them (an empty input gives one empty piece).
pub open spec fn split_on(s: Seq<char>, sep: char) -> Seq<Seq<char>>
    decreases s.len(),
{
    if s.len() == 0 {
        seq![Seq::<char>::empty()]
    } else {
        let rest = split_on(s.drop_last(), sep);
        if s.last() == sep {
            rest.push(Seq::<char>::empty())
        } else {
            rest.update(rest.len() - 1, rest.last().push(s.last()))
        }
    }
}

pub(crate) proof fn lemma_split_on_nonempty(s: Seq<char>, sep: char)
    ensures
        split_on(s, sep).len() >= 1,
    decreases s.len(),
{
    if s.len() > 0 {
        lemma_split_on_nonempty(s.drop_last(), sep);
    }
}

/// `s.split(sep)`, each piece as its characters.
pub fn split_chars(s: &Vec<char>, sep: char) -> (parts: Vec<Vec<char>>)
    ensures
        parts@.len() == split_on(s@, sep).len(),
        forall|i: int| 0 <= i < parts@.len() ==> #[trigger] parts@[i]@ == split_on(s@, sep)[i],
{
    let mut parts: Vec<Vec<char>> = Vec::new();
    let mut current: Vec<char> = Vec::new();
    let mut i: usize = 0;
    proof {
        assert(s@.subrange(0, 0) =~= Seq::<char>::empty());
    }
    while i < s.len()
        invariant
            i <= s.len(),
            parts@.len() + 1 == split_on(s@.subrange(0, i as int), sep).len(),
            forall|k: int| 0 <= k < parts@.len() ==> #[trigger] parts@[k]@ == split_on(s@.subrange(0, i as int), sep)[k],
            current@ == split_on(s@.subrange(0, i as int), sep).last(),
        decreases s.len() - i,
    {
        let c = s[i];
        let ghost prefix = s@.subrange(0, i as int);
        let ghost next = s@.subrange(0, i + 1);
        proof {
            assert(next.drop_last() =~= prefix);
            assert(next.last() == c);
            lemma_split_on_nonempty(prefix, sep);
        }
        if c == sep {
            let done = current;
            parts.push(done);
            current = Vec::new();
            proof {
                assert(current@ =~= Seq::<char>::empty());
            }
        } else {
            current.push(c);
        }
        i = i + 1;
    }
    proof {
        assert(s@.subrange(0, s@.len() as int) =~= s@);
        lemma_split_on_nonempty(s@, sep);
    }
    parts.push(current);
    parts
}

/// Value of the decimal text `t` as `str::parse` reads an unsigned integer:
/// an optional `+`, then one or more ASCII digits.
#[verifier::opaque]
pub open spec fn decimal_value(t: Seq<char>) -> Option<nat> {
    let digits = if t.len() > 0 && t[0] == '+' { t.drop_first() } else { t };
    if digits.len() > 0 && forall|i: int| 0 <= i < digits.len() ==> '0' <= #[trigger] digits[i] <= '9' {
        Some(digits_value(digits, 10))
    } else {
        None
    }
}

/// Value of the hexadecimal text `t` as `from_str_radix(t, 16)` reads an
/// unsigned integer: an optional `+`, then one or more hex digits of either
/// case.
#[verifier::opaque]
pub open spec fn hex_value(t: Seq<char>) -> Option<nat> {
    let digits = if t.len() > 0 && t[0] == '+' { t.drop_first() } else { t };
    if digits.len() > 0 && forall|i: int| 0 <= i < digits.len() ==> is_hex_digit(#[trigger] digits[i]) {
        Some(digits_value(digits, 16))
    } else {
        None
    }
}

pub open spec fn is_hex_digit(c: char) -> bool {
    ('0' <= c <= '9') || ('a' <= c <= 'f') || ('A' <= c <= 'F')
}

pub open spec fn digit_value(c: char) -> nat {
    if '0' <= c <= '9' {
        ((c as nat) - ('0' as nat)) as nat
    } else if 'a' <= c <= 'f' {
        ((c as nat) - ('a' as nat) + 10) as nat
    } else if 'A' <= c <= 'F' {
        ((c as nat) - ('A' as nat) + 10) as nat
    } else {
        0
    }
}

/// Positional value of `digits` in base `radix`, most significant first.
pub open spec fn digits_value(digits: Seq<char>, radix: nat) -> nat
    decreases digits.len(),
{
    if digits.len() == 0 {
        0
    } else {
        digits_value(digits.drop_last(), radix) * radix + digit_value(digits.last())
    }
}

/// `v` when it is present and at most `max`.
pub open spec fn bounded(v: Option<nat>, max: nat) -> Option<nat> {
    match v {
        Some(x) => if x <= max { Some(x) } else { None },
        None => None,
    }
}

/// `s.parse::<u8>()`, with the error dropped: the value when `s` is decimal
/// text of a number that fits in a `u8`.
#[verifier::external_body]
pub(crate) fn parse_u8(s: &str) -> (r: Option<u8>)
    ensures
        r matches Some(v) ==> decimal_value(s@) == Some(v as nat),
        r is None ==> bounded(decimal_value(s@), 255) is None,
{
    s.parse::<u8>().ok()
}

/// `s.parse::<u64>()`, with the error dropped: the value when `s` is decimal
/// text of a number that fits in a `u64`.
#[verifier::external_body]
pub(crate) fn parse_u64(s: &str) -> (r: Option<u64>)
    ensures
        r matches Some(v) ==> decimal_value(s@) == Some(v as nat),
        r is None ==> bounded(decimal_value(s@), u64::MAX as nat) is None,
{
    s.parse::<u64>().ok()
}

/// `u32::from_str_radix(s, 16)`, with the error dropped: the value when `s`
/// is hexadecimal text of a number that fits in a `u32`.
#[verifier::external_body]
pub(crate) fn parse_hex_u32(s: &str) -> (r: Option<u32>)
    ensures
        r matches Some(v) ==> hex_value(s@) == Some(v as nat),
        r is None ==> bounded(hex_value(s@), u32::MAX as nat) is None,
{
    u32::from_str_radix(s, 16).ok()
}

/// Builds a `String` from all of `chars`.
pub fn string_of(chars: &Vec<char>) -> (s: String)
    ensures
        s@ == chars@,
{
    let s = string_from_chars(chars, 0, chars.len());
    assert(chars@.subrange(0, chars@.len() as int) =~= chars@);
    s
}

/// Whether the strings `a` and `b` hold the same characters.
pub fn str_eq(a: &str, b: &str) -> (r: bool)
    ensures
        r == (a@ == b@),
{
    let ca = chars_of(a);
    let cb = chars_of(b);
    if ca.len() != cb.len() {
        return false;
    }
    let mut i: usize = 0;
    while i < ca.len()
        invariant
            ca@ == a@,
            cb@ == b@,
            ca.len() == cb.len(),
            i <= ca.len(),
            forall|j: int| 0 <= j < i ==> ca@[j] == cb@[j],
        decreases ca.len() - i,
    {
        if ca[i] != cb[i] {
            return false;
        }
        i = i + 1;
    }
    assert(ca@ =~= cb@);
    true
}

} // verus!
