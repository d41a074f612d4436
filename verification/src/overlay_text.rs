//! Overlay helpers that turn integer telemetry into labels, read hotkeys
//! into key codes, and do the integer geometry of widget areas.

use vstd::prelude::*;
use crate::text::{self, chars_of, push_int, push_str, split_chars, trim_bounds, to_ascii_upper_char};

verus! {

/// `+N L` / `-N L` text of a non-zero lap difference (no space).
pub open spec fn lap_gap_text_spec(laps: int) -> Seq<char> {
    (if laps > 0 { "+"@ } else { "-"@ }) + text::int_text(if laps < 0 { -laps } else { laps }) + "L"@
}

fn lap_gap_text(laps: i32) -> (s: String)
    requires
        laps != 0,
        laps > i32::MIN,
    ensures
        s@ == lap_gap_text_spec(laps as int),
{
    let mut s = String::new();
    if laps > 0 {
        push_str(&mut s, "+");
    } else {
        push_str(&mut s, "-");
    }
    let magnitude: i64 = if laps < 0 { -(laps as i64) } else { laps as i64 };
    push_int(&mut s, magnitude);
    push_str(&mut s, "L");
    s
}

/// Standings gap of a car that is laps down (or up) on the leader: its lap
/// count with one sign; `None` when it is on the leader's lap or the lap
/// difference is not known (the caller then shows the time gap).
pub fn standings_lap_gap(laps_behind_leader: Option<i32>) -> (s: Option<String>)
    requires
        laps_behind_leader matches Some(l) ==> l > i32::MIN,
    ensures
        match laps_behind_leader {
            Some(l) if l != 0 => s matches Some(t) && t@ == lap_gap_text_spec(l as int),
            _ => s is None,
        },
{
    match laps_behind_leader {
        Some(laps) => {
            if laps != 0 {
                Some(lap_gap_text(laps))
            } else {
                None
            }
        },
        None => None,
    }
}

/// Relative gap of a car on a different lap from the player: the lap
/// difference with one sign; `None` on the same lap.
pub fn relative_lap_gap(car_lap: i32, player_lap: i32) -> (s: Option<String>)
    requires
        i32::MIN < car_lap - player_lap <= i32::MAX,
    ensures
        car_lap == player_lap ==> s is None,
        car_lap != player_lap ==> (s matches Some(t) && t@ == lap_gap_text_spec(car_lap - player_lap)),
{
    let delta = car_lap - player_lap;
    if delta != 0 {
        Some(lap_gap_text(delta))
    } else {
        None
    }
}

/// A small count or `--` when it is not known.
pub fn option_number(value: Option<u8>) -> (s: String)
    ensures
        s@ == (match value {
            Some(v) => text::int_text(v as int),
            None => "--"@,
        }),
{
    match value {
        Some(v) => text::int_to_string(v as i64),
        None => {
            let mut s = String::new();
            push_str(&mut s, "--");
            s
        },
    }
}

/// Name of a flag code.
pub open spec fn flag_name(flag: int) -> Option<Seq<char>> {
    if flag == 0 { Some("GREEN"@) }
    else if flag == 1 { Some("BLUE"@) }
    else if flag == 2 { Some("YELLOW"@) }
    else if flag == 3 { Some("RED"@) }
    else if flag == 4 { Some("BLACK"@) }
    else if flag == 5 { Some("WHITE"@) }
    else if flag == 6 { Some("BLUE"@) }
    else { None }
}

/// `FLAG <NAME>` for a known flag code, `FLAG UNKNOWN (<code>)` otherwise.
pub fn semantic_flag(flag: i32) -> (s: String)
    ensures
        s@ == (match flag_name(flag as int) {
            Some(name) => "FLAG "@ + name,
            None => "FLAG UNKNOWN ("@ + text::int_text(flag as int) + ")"@,
        }),
{
    let mut s = String::new();
    let label = if flag == 0 {
        "GREEN"
    } else if flag == 1 {
        "BLUE"
    } else if flag == 2 {
        "YELLOW"
    } else if flag == 3 {
        "RED"
    } else if flag == 4 {
        "BLACK"
    } else if flag == 5 {
        "WHITE"
    } else if flag == 6 {
        "BLUE"
    } else {
        push_str(&mut s, "FLAG UNKNOWN (");
        push_int(&mut s, flag as i64);
        push_str(&mut s, ")");
        assert(s@ =~= "FLAG UNKNOWN ("@ + text::int_text(flag as int) + ")"@);
        return s;
    };
    push_str(&mut s, "FLAG ");
    push_str(&mut s, label);
    assert(s@ =~= "FLAG "@ + label@);
    s
}

/// English ordinal suffix of a gear number.
pub fn gear_suffix(gear: i32) -> (s: &'static str)
    ensures
        s@ == (if gear == 1 { "ST"@ } else if gear == 2 { "ND"@ } else if gear == 3 { "RD"@ } else { "TH"@ }),
{
    if gear == 1 {
        "ST"
    } else if gear == 2 {
        "ND"
    } else if gear == 3 {
        "RD"
    } else {
        "TH"
    }
}

/// Windows virtual-key code of `F1` through `F12`.
pub open spec fn function_key_code(t: Seq<char>) -> Option<u32> {
    if t == "F1"@ { Some(0x70u32) }
    else if t == "F2"@ { Some(0x71u32) }
    else if t == "F3"@ { Some(0x72u32) }
    else if t == "F4"@ { Some(0x73u32) }
    else if t == "F5"@ { Some(0x74u32) }
    else if t == "F6"@ { Some(0x75u32) }
    else if t == "F7"@ { Some(0x76u32) }
    else if t == "F8"@ { Some(0x77u32) }
    else if t == "F9"@ { Some(0x78u32) }
    else if t == "F10"@ { Some(0x79u32) }
    else if t == "F11"@ { Some(0x7Au32) }
    else if t == "F12"@ { Some(0x7Bu32) }
    else { None }
}

pub open spec fn upper_trimmed(v: Seq<char>) -> Seq<char> {
    text::trimmed(v).map_values(|c: char| text::ascii_upper(c))
}

fn upper_trimmed_chars(v: &Vec<char>) -> (r: Vec<char>)
    ensures
        r@ == upper_trimmed(v@),
{
    let (start, end) = trim_bounds(v);
    let mut out: Vec<char> = Vec::new();
    let mut i = start;
    while i < end
        invariant
            start <= i <= end <= v.len(),
            out@ == v@.subrange(start as int, i as int).map_values(|c: char| text::ascii_upper(c)),
        decreases end - i,
    {
        out.push(to_ascii_upper_char(v[i]));
        i = i + 1;
        assert(out@ =~= v@.subrange(start as int, i as int).map_values(|c: char| text::ascii_upper(c)));
    }
    out
}

fn key_code_of(t: &Vec<char>) -> (k: Option<u32>)
    ensures
        k == function_key_code(t@),
{
    if crate::hotkeys::is_word(t, "F1") { Some(0x70) }
    else if crate::hotkeys::is_word(t, "F2") { Some(0x71) }
    else if crate::hotkeys::is_word(t, "F3") { Some(0x72) }
    else if crate::hotkeys::is_word(t, "F4") { Some(0x73) }
    else if crate::hotkeys::is_word(t, "F5") { Some(0x74) }
    else if crate::hotkeys::is_word(t, "F6") { Some(0x75) }
    else if crate::hotkeys::is_word(t, "F7") { Some(0x76) }
    else if crate::hotkeys::is_word(t, "F8") { Some(0x77) }
    else if crate::hotkeys::is_word(t, "F9") { Some(0x78) }
    else if crate::hotkeys::is_word(t, "F10") { Some(0x79) }
    else if crate::hotkeys::is_word(t, "F11") { Some(0x7A) }
    else if crate::hotkeys::is_word(t, "F12") { Some(0x7B) }
    else { None }
}

/// Virtual-key code of a function-key name (case and surrounding space
/// ignored).
pub fn virtual_key(value: &str) -> (k: Option<u32>)
    ensures
        k == function_key_code(upper_trimmed(value@)),
{
    let chars = chars_of(value);
    let t = upper_trimmed_chars(&chars);
    key_code_of(&t)
}

pub const MOD_ALT: u32 = 0x0001;
pub const MOD_CONTROL: u32 = 0x0002;
pub const MOD_SHIFT: u32 = 0x0004;

/// Modifier flag a normalized piece sets.
pub open spec fn modifier_flag(p: Seq<char>) -> u32 {
    if p == "CTRL"@ || p == "CONTROL"@ { MOD_CONTROL }
    else if p == "SHIFT"@ { MOD_SHIFT }
    else if p == "ALT"@ { MOD_ALT }
    else { 0 }
}

/// Modifiers and key after reading the pieces `parts` in order: modifier
/// pieces add their flag, every other piece replaces the key by its code
/// (or by none).
pub open spec fn hotkey_fold(parts: Seq<Seq<char>>) -> (u32, Option<u32>)
    decreases parts.len(),
{
    if parts.len() == 0 {
        (0u32, None)
    } else {
        let (mods, key) = hotkey_fold(parts.drop_last());
        let p = parts.last();
        if modifier_flag(p) != 0 {
            (mods | modifier_flag(p), key)
        } else {
            (mods, function_key_code(upper_trimmed(p)))
        }
    }
}

/// Modifier flags and virtual-key code of a binding such as `Ctrl+Shift+F9`.
pub open spec fn hotkey_spec(value: Seq<char>) -> Option<(u32, u32)> {
    let parts = text::split_on(value, '+').map_values(|p: Seq<char>| upper_trimmed(p));
    let (mods, key) = hotkey_fold(parts);
    match key {
        Some(k) => Some((mods, k)),
        None => None,
    }
}

/// Reads a binding into the modifier flags and virtual-key code used to
/// register it.
pub fn hotkey(value: &str) -> (r: Option<(u32, u32)>)
    ensures
        r == hotkey_spec(value@),
{
    let chars = chars_of(value);
    let raw = split_chars(&chars, '+');
    let ghost parts = text::split_on(value@, '+').map_values(|p: Seq<char>| upper_trimmed(p));
    let mut modifiers: u32 = 0;
    let mut key: Option<u32> = None;
    let mut i: usize = 0;
    while i < raw.len()
        invariant
            raw@.len() == parts.len(),
            parts == text::split_on(value@, '+').map_values(|p: Seq<char>| upper_trimmed(p)),
            forall|k: int| 0 <= k < raw@.len() ==> #[trigger] raw@[k]@ == text::split_on(value@, '+')[k],
            i <= raw.len(),
            (modifiers, key) == hotkey_fold(parts.subrange(0, i as int)),
        decreases raw.len() - i,
    {
        let part = upper_trimmed_chars(&raw[i]);
        proof {
            let next = parts.subrange(0, i + 1);
            assert(next.drop_last() =~= parts.subrange(0, i as int));
            assert(next.last() == part@);
        }
        if crate::hotkeys::is_word(&part, "CTRL") || crate::hotkeys::is_word(&part, "CONTROL") {
            modifiers = modifiers | MOD_CONTROL;
        } else if crate::hotkeys::is_word(&part, "SHIFT") {
            modifiers = modifiers | MOD_SHIFT;
        } else if crate::hotkeys::is_word(&part, "ALT") {
            modifiers = modifiers | MOD_ALT;
        } else {
            key = key_code_of(&upper_trimmed_chars(&part));
            proof {
                assert(upper_trimmed(part@) == upper_trimmed(parts[i as int]));
            }
        }
        i = i + 1;
    }
    proof {
        assert(parts.subrange(0, parts.len() as int) =~= parts);
    }
    match key {
        Some(k) => Some((modifiers, k)),
        None => None,
    }
}

/// An integer rectangle on the overlay.
#[derive(Debug, Clone, Copy, PartialEq, Eq, Structural)]
pub struct Area {
    pub x: i32,
    pub y: i32,
    pub width: i32,
    pub height: i32,
}

impl Area {
    pub fn right(self) -> (r: i32)
        requires
            i32::MIN <= self.x + self.width <= i32::MAX,
        ensures
            r == self.x + self.width,
    {
        self.x + self.width
    }

    pub fn bottom(self) -> (b: i32)
        requires
            i32::MIN <= self.y + self.height <= i32::MAX,
        ensures
            b == self.y + self.height,
    {
        self.y + self.height
    }

    /// Whether the point lies in the area, edges included.
    pub fn contains(self, x: i32, y: i32) -> (inside: bool)
        requires
            i32::MIN <= self.x + self.width <= i32::MAX,
            i32::MIN <= self.y + self.height <= i32::MAX,
        ensures
            inside == (self.x <= x <= self.x + self.width && self.y <= y <= self.y + self.height),
    {
        x >= self.x && x <= self.right() && y >= self.y && y <= self.bottom()
    }
}

/// `value / grid` rounded to the nearest integer, halves away from zero.
pub open spec fn rounded_quotient(value: int, grid: int) -> int {
    if value >= 0 {
        (2 * value + grid) / (2 * grid)
    } else {
        -((2 * (-value) + grid) / (2 * grid))
    }
}

/// Snaps a coordinate to the nearest multiple of the grid size, halves away
/// from zero.
pub fn snap_i32(value: i32, grid_size: i32) -> (r: i32)
    requires
        0 < grid_size <= 1000,
        -2_000_000_000 <= value <= 2_000_000_000,
    ensures
        r == rounded_quotient(value as int, grid_size as int) * grid_size,
{
    let v = value as i64;
    let g = grid_size as i64;
    let a: i64 = if v >= 0 { v } else { -v };
    let qa: i64 = (2 * a + g) / (2 * g);
    proof {
        let d: int = 2 * a + g;
        let m: int = 2 * g;
        vstd::arithmetic::div_mod::lemma_fundamental_div_mod(d, m);
        vstd::arithmetic::div_mod::lemma_mod_bound(d, m);
        assert(0 <= qa * g <= 2_000_001_000) by (nonlinear_arith)
            requires
                d == m * qa + d % m,
                0 <= d % m,
                m == 2 * g,
                0 < g <= 1000,
                0 <= d <= 4_000_001_000;
    }
    let p = qa * g;
    if v >= 0 {
        p as i32
    } else {
        assert(-(qa * g) == (-qa) * g) by (nonlinear_arith);
        (-p) as i32
    }
}


/// A lap gap reads as its sign (`+` for laps ahead, `-` for laps behind),
/// the number of laps in decimal, and `L`; different gaps read differently.
pub proof fn lemma_lap_gap_text(laps: int, other: int)
    requires
        laps != 0,
        other != 0,
    ensures
        ({
            let t = lap_gap_text_spec(laps);
            let n = if laps < 0 { -laps } else { laps };
            &&& t.len() >= 3
            &&& t[0] == (if laps > 0 { '+' } else { '-' })
            &&& t.last() == 'L'
            &&& t.subrange(1, t.len() - 1) == text::decimal_digits(n as nat)
        }),
        lap_gap_text_spec(laps) == lap_gap_text_spec(other) ==> laps == other,
{
    reveal_strlit("+");
    reveal_strlit("-");
    reveal_strlit("L");
    let n = if laps < 0 { -laps } else { laps };
    let m = if other < 0 { -other } else { other };
    let t = lap_gap_text_spec(laps);
    let u = lap_gap_text_spec(other);
    text::lemma_decimal_digits_len(n as nat);
    text::lemma_decimal_digits_len(m as nat);
    assert(t.subrange(1, t.len() - 1) =~= text::decimal_digits(n as nat));
    assert(u.subrange(1, u.len() - 1) =~= text::decimal_digits(m as nat));
    if t == u {
        text::lemma_decimal_digits_injective(n as nat, m as nat);
        assert(t[0] == u[0]);
    }
}

} // verus!
