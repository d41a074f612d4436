//! Layout of the built-in presets: which built-in surfaces a preset shows
//! and where they and the enabled catalog widgets are placed.

use vstd::prelude::*;
use crate::config;
use crate::config::{contains_text, PresetSlot, SavedPresets, WidgetConfig};
use crate::text::str_eq;

verus! {

/// The built-in overlay surfaces.
#[derive(Debug, Clone, Copy, PartialEq, Eq, Structural)]
pub enum Surface {
    Telemetry,
    Inputs,
    LapTiming,
    Timing,
    Sectors,
    MiniSectors,
    Coaching,
    Performance,
}

/// Where a widget goes: position, size and stacking order.
#[derive(Debug, Clone, Copy, PartialEq, Eq, Structural)]
pub struct Placement {
    pub x: i32,
    pub y: i32,
    pub width: i32,
    pub height: i32,
    pub z_index: i32,
}

/// Whether a preset with these widget flags shows a surface. The coaching
/// surface also needs coaching not to be switched off.
pub open spec fn surface_on(f: WidgetConfig, coaching_on: bool, s: Surface) -> bool {
    match s {
        Surface::Telemetry => f.title || f.speed_gear_rpm,
        Surface::Inputs => f.pedals || f.steering || f.input_history,
        Surface::LapTiming => f.lap_info || f.lap_timing,
        Surface::Timing => f.delta_timing,
        Surface::Sectors => f.sectors,
        Surface::MiniSectors => f.mini_sector_widget,
        Surface::Coaching => f.coaching && coaching_on,
        Surface::Performance => f.performance_monitor,
    }
}

/// Whether a preset shows a surface.
pub fn preset_surface_enabled(flags: &WidgetConfig, coaching_mode: &str, surface: Surface) -> (on: bool)
    ensures
        on == surface_on(*flags, coaching_mode@ != "off"@, surface),
{
    match surface {
        Surface::Telemetry => flags.title || flags.speed_gear_rpm,
        Surface::Inputs => flags.pedals || flags.steering || flags.input_history,
        Surface::LapTiming => flags.lap_info || flags.lap_timing,
        Surface::Timing => flags.delta_timing,
        Surface::Sectors => flags.sectors,
        Surface::MiniSectors => flags.mini_sector_widget,
        Surface::Coaching => flags.coaching && !str_eq(coaching_mode, "off"),
        Surface::Performance => flags.performance_monitor,
    }
}

/// Where each surface sits in the default layout.
pub open spec fn default_surface_placement(s: Surface) -> Placement {
    match s {
        Surface::Telemetry => Placement { x: 14, y: 10, width: 392, height: 52, z_index: 10 },
        Surface::Inputs => Placement { x: 14, y: 68, width: 240, height: 88, z_index: 20 },
        Surface::LapTiming => Placement { x: 266, y: 68, width: 140, height: 42, z_index: 30 },
        Surface::Timing => Placement { x: 266, y: 114, width: 140, height: 42, z_index: 40 },
        Surface::Sectors => Placement { x: 14, y: 164, width: 190, height: 42, z_index: 50 },
        Surface::MiniSectors => Placement { x: 210, y: 164, width: 196, height: 42, z_index: 60 },
        Surface::Coaching => Placement { x: 14, y: 212, width: 392, height: 58, z_index: 70 },
        Surface::Performance => Placement { x: 14, y: 278, width: 392, height: 20, z_index: 80 },
    }
}

/// The default position, size and stacking order of a surface.
pub fn default_surface_box(surface: Surface) -> (p: Placement)
    ensures
        p == default_surface_placement(surface),
{
    match surface {
        Surface::Telemetry => Placement { x: 14, y: 10, width: 392, height: 52, z_index: 10 },
        Surface::Inputs => Placement { x: 14, y: 68, width: 240, height: 88, z_index: 20 },
        Surface::LapTiming => Placement { x: 266, y: 68, width: 140, height: 42, z_index: 30 },
        Surface::Timing => Placement { x: 266, y: 114, width: 140, height: 42, z_index: 40 },
        Surface::Sectors => Placement { x: 14, y: 164, width: 190, height: 42, z_index: 50 },
        Surface::MiniSectors => Placement { x: 210, y: 164, width: 196, height: 42, z_index: 60 },
        Surface::Coaching => Placement { x: 14, y: 212, width: 392, height: 58, z_index: 70 },
        Surface::Performance => Placement { x: 14, y: 278, width: 392, height: 20, z_index: 80 },
    }
}

/// In the default layout no two surfaces overlap.
pub proof fn lemma_default_surfaces_do_not_overlap(a: Surface, b: Surface)
    requires
        a != b,
    ensures
        !overlaps(default_surface_placement(a), default_surface_placement(b)),
{
}

/// The surface a layout override names: `telemetry`, `inputs`,
/// `lap_timing`, `timing`, `sectors`, `mini_sectors`, `coaching` or
/// `performance`.
pub open spec fn surface_named(id: Seq<char>) -> Option<Surface> {
    if id == "telemetry"@ {
        Some(Surface::Telemetry)
    } else if id == "inputs"@ {
        Some(Surface::Inputs)
    } else if id == "lap_timing"@ {
        Some(Surface::LapTiming)
    } else if id == "timing"@ {
        Some(Surface::Timing)
    } else if id == "sectors"@ {
        Some(Surface::Sectors)
    } else if id == "mini_sectors"@ {
        Some(Surface::MiniSectors)
    } else if id == "coaching"@ {
        Some(Surface::Coaching)
    } else if id == "performance"@ {
        Some(Surface::Performance)
    } else {
        None
    }
}

/// The surface with the given id, if it is one.
pub fn surface_by_id(id: &str) -> (r: Option<Surface>)
    ensures
        r == surface_named(id@),
{
    if str_eq(id, "telemetry") {
        Some(Surface::Telemetry)
    } else if str_eq(id, "inputs") {
        Some(Surface::Inputs)
    } else if str_eq(id, "lap_timing") {
        Some(Surface::LapTiming)
    } else if str_eq(id, "timing") {
        Some(Surface::Timing)
    } else if str_eq(id, "sectors") {
        Some(Surface::Sectors)
    } else if str_eq(id, "mini_sectors") {
        Some(Surface::MiniSectors)
    } else if str_eq(id, "coaching") {
        Some(Surface::Coaching)
    } else if str_eq(id, "performance") {
        Some(Surface::Performance)
    } else {
        None
    }
}

pub const LEFT: i32 = 14;
pub const FULL_WIDTH: i32 = 392;
pub const GAP: i32 = 10;

/// Placements made so far, the next free row and the next stacking index.
pub struct Arrangement {
    pub placed: Vec<(Surface, Placement)>,
    pub next_y: i32,
    pub next_z: i32,
}

pub type ArrangeState = (Seq<(Surface, Placement)>, int, int);

/// A surface across the full width at the next row.
pub open spec fn place_full(st: ArrangeState, s: Surface, h: int) -> ArrangeState {
    let (items, y, z) = st;
    (items.push((s, Placement { x: LEFT, y: y as i32, width: FULL_WIDTH, height: h as i32, z_index: z as i32 })), y + h + GAP, z + 10)
}

/// A row of up to two surfaces: one takes the full width, two share it.
pub open spec fn place_row(st: ArrangeState, a: Surface, ha: int, a_on: bool, b: Surface, hb: int, b_on: bool) -> ArrangeState {
    let (items, y, z) = st;
    if a_on && b_on {
        let w = (FULL_WIDTH - GAP) / 2;
        (items.push((a, Placement { x: LEFT, y: y as i32, width: w as i32, height: ha as i32, z_index: z as i32 }))
            .push((b, Placement { x: (LEFT + w + GAP) as i32, y: y as i32, width: w as i32, height: hb as i32, z_index: (z + 10) as i32 })),
            y + (if ha >= hb { ha } else { hb }) + GAP, z + 20)
    } else if a_on {
        place_full(st, a, ha)
    } else if b_on {
        place_full(st, b, hb)
    } else {
        st
    }
}

/// The arrangement of a preset's surfaces: telemetry; inputs and lap
/// timing; timing and sectors; mini sectors and performance; coaching.
pub open spec fn arrangement_spec(f: WidgetConfig, coaching_on: bool) -> ArrangeState {
    let s0: ArrangeState = (Seq::empty(), 10, 10);
    let s1 = if surface_on(f, coaching_on, Surface::Telemetry) { place_full(s0, Surface::Telemetry, 52) } else { s0 };
    let s2 = place_row(s1, Surface::Inputs, 96, surface_on(f, coaching_on, Surface::Inputs),
        Surface::LapTiming, 44, surface_on(f, coaching_on, Surface::LapTiming));
    let s3 = place_row(s2, Surface::Timing, 54, surface_on(f, coaching_on, Surface::Timing),
        Surface::Sectors, 44, surface_on(f, coaching_on, Surface::Sectors));
    let s4 = place_row(s3, Surface::MiniSectors, 44, surface_on(f, coaching_on, Surface::MiniSectors),
        Surface::Performance, 28, surface_on(f, coaching_on, Surface::Performance));
    if surface_on(f, coaching_on, Surface::Coaching) { place_full(s4, Surface::Coaching, 58) } else { s4 }
}

pub open spec fn arrangement_view(a: Arrangement) -> ArrangeState {
    (a.placed@, a.next_y as int, a.next_z as int)
}

pub open spec fn small_state(st: ArrangeState) -> bool {
    10 <= st.1 <= 1000 && 10 <= st.2 <= 1000
}

fn full(a: &mut Arrangement, s: Surface, h: i32)
    requires
        10 <= old(a).next_y <= 1000,
        10 <= old(a).next_z <= 1000,
        0 < h <= 100,
    ensures
        arrangement_view(*final(a)) == place_full(arrangement_view(*old(a)), s, h as int),
{
    let p = Placement { x: LEFT, y: a.next_y, width: FULL_WIDTH, height: h, z_index: a.next_z };
    a.placed.push((s, p));
    a.next_y = a.next_y + h + GAP;
    a.next_z = a.next_z + 10;
}

fn row(a: &mut Arrangement, s: Surface, hs: i32, s_on: bool, t: Surface, ht: i32, t_on: bool)
    requires
        10 <= old(a).next_y <= 1000,
        10 <= old(a).next_z <= 1000,
        0 < hs <= 100,
        0 < ht <= 100,
    ensures
        arrangement_view(*final(a)) == place_row(arrangement_view(*old(a)), s, hs as int, s_on, t, ht as int, t_on),
{
    if s_on && t_on {
        let w = (FULL_WIDTH - GAP) / 2;
        let y = a.next_y;
        let z = a.next_z;
        a.placed.push((s, Placement { x: LEFT, y, width: w, height: hs, z_index: z }));
        a.placed.push((t, Placement { x: LEFT + w + GAP, y, width: w, height: ht, z_index: z + 10 }));
        a.next_y = y + (if hs >= ht { hs } else { ht }) + GAP;
        a.next_z = z + 20;
    } else if s_on {
        full(a, s, hs);
    } else if t_on {
        full(a, t, ht);
    }
}

/// Places a preset's surfaces one row under the other.
pub fn arrange_surfaces(flags: &WidgetConfig, coaching_mode: &str) -> (a: Arrangement)
    ensures
        arrangement_view(a) == arrangement_spec(*flags, coaching_mode@ != "off"@),
{
    let mut a = Arrangement { placed: Vec::new(), next_y: 10, next_z: 10 };
    if preset_surface_enabled(flags, coaching_mode, Surface::Telemetry) {
        full(&mut a, Surface::Telemetry, 52);
    }
    row(&mut a, Surface::Inputs, 96, preset_surface_enabled(flags, coaching_mode, Surface::Inputs),
        Surface::LapTiming, 44, preset_surface_enabled(flags, coaching_mode, Surface::LapTiming));
    row(&mut a, Surface::Timing, 54, preset_surface_enabled(flags, coaching_mode, Surface::Timing),
        Surface::Sectors, 44, preset_surface_enabled(flags, coaching_mode, Surface::Sectors));
    row(&mut a, Surface::MiniSectors, 44, preset_surface_enabled(flags, coaching_mode, Surface::MiniSectors),
        Surface::Performance, 28, preset_surface_enabled(flags, coaching_mode, Surface::Performance));
    if preset_surface_enabled(flags, coaching_mode, Surface::Coaching) {
        full(&mut a, Surface::Coaching, 58);
    }
    a
}

/// Index of `ids[k]` among the entries of `ids[..k]` that are not
/// `standings`.
pub open spec fn rank_among_others(ids: Seq<Seq<char>>, k: int) -> int
    decreases k,
{
    if k <= 0 {
        0
    } else {
        rank_among_others(ids, k - 1) + (if ids[k - 1] == "standings"@ { 0int } else { 1int })
    }
}

/// Slot of a catalog widget that is not the standings: the standings, when
/// enabled, take the first four slots (two full-width rows).
pub open spec fn extra_slot(ids: Seq<Seq<char>>, k: int) -> int {
    (if ids.contains("standings"@) { 4int } else { 0int }) + rank_among_others(ids, k)
}

/// Where the enabled catalog widget `ids[k]` goes below the surfaces: the
/// standings across the full width at the top, the others in two columns.
pub open spec fn extra_placement(ids: Seq<Seq<char>>, k: int, top: int, start_z: int) -> Placement {
    if ids[k] == "standings"@ {
        Placement { x: LEFT, y: top as i32, width: FULL_WIDTH, height: 120, z_index: start_z as i32 }
    } else {
        let t = extra_slot(ids, k);
        Placement {
            x: (LEFT + (t % 2) * (196 + GAP)) as i32,
            y: (top + (t / 2) * (52 + GAP)) as i32,
            width: 196,
            height: 52,
            z_index: (start_z + t) as i32,
        }
    }
}

proof fn lemma_rank_bounds(ids: Seq<Seq<char>>, k: int)
    requires
        0 <= k <= ids.len(),
    ensures
        0 <= rank_among_others(ids, k) <= k,
    decreases k,
{
    if k > 0 {
        lemma_rank_bounds(ids, k - 1);
    }
}

/// Places the enabled catalog widgets (`ids`, in their stored order) below
/// the surfaces, starting at row `top` and stacking index `start_z`.
pub fn place_extra_widgets(ids: &Vec<String>, top: i32, start_z: i32) -> (placements: Vec<Placement>)
    requires
        ids@.len() <= 100_000,
        0 <= top <= 10_000,
        0 <= start_z <= 10_000,
    ensures
        placements@.len() == ids@.len(),
        forall|k: int| 0 <= k < ids@.len() ==> #[trigger] placements@[k]
            == extra_placement(crate::config::views(ids@), k, top as int, start_z as int),
{
    let ghost v = crate::config::views(ids@);
    let has_standings = contains_text(ids, "standings");
    let mut slot: i32 = if has_standings { 4 } else { 0 };
    let mut out: Vec<Placement> = Vec::new();
    let mut k: usize = 0;
    while k < ids.len()
        invariant
            ids@.len() <= 100_000,
            0 <= top <= 10_000,
            0 <= start_z <= 10_000,
            v == crate::config::views(ids@),
            has_standings == v.contains("standings"@),
            k <= ids.len(),
            slot == (if has_standings { 4int } else { 0int }) + rank_among_others(v, k as int),
            out@.len() == k,
            forall|j: int| 0 <= j < k ==> #[trigger] out@[j] == extra_placement(v, j, top as int, start_z as int),
        decreases ids.len() - k,
    {
        proof {
            lemma_rank_bounds(v, k as int);
            assert(v[k as int] == ids@[k as int]@);
        }
        if text_is(&ids[k], "standings") {
            out.push(Placement { x: LEFT, y: top, width: FULL_WIDTH, height: 120, z_index: start_z });
        } else {
            let column = slot % 2;
            let row = slot / 2;
            assert(0 <= row <= 50_002);
            assert(0 <= row * (52 + GAP) <= 50_002 * (52 + GAP)) by (nonlinear_arith)
                requires
                    0 <= row <= 50_002,
                    GAP == 10;
            out.push(Placement {
                x: LEFT + column * (196 + GAP),
                y: top + row * (52 + GAP),
                width: 196,
                height: 52,
                z_index: start_z + slot,
            });
            slot = slot + 1;
        }
        k = k + 1;
    }
    out
}

fn text_is(s: &String, w: &str) -> (r: bool)
    ensures
        r == (s@ == w@),
{
    str_eq(s.as_str(), w)
}

/// Two placements overlap when their interiors intersect.
pub open spec fn overlaps(a: Placement, b: Placement) -> bool {
    a.x < b.x + b.width && a.x + a.width > b.x && a.y < b.y + b.height && a.y + a.height > b.y
}

/// Every placement of the state lies above its next row, and no two overlap.
pub open spec fn arrangement_ok(st: ArrangeState) -> bool {
    &&& forall|i: int| 0 <= i < st.0.len() ==> (#[trigger] st.0[i]).1.y + st.0[i].1.height <= st.1
    &&& forall|i: int| 0 <= i < st.0.len() ==> (#[trigger] st.0[i]).1.height > 0
    &&& forall|i: int, j: int| 0 <= i < j < st.0.len() ==> !overlaps((#[trigger] st.0[i]).1, (#[trigger] st.0[j]).1)
}

proof fn lemma_full_ok(st: ArrangeState, s: Surface, h: int)
    requires
        arrangement_ok(st),
        small_state(st),
        0 < h <= 100,
    ensures
        arrangement_ok(place_full(st, s, h)),
        place_full(st, s, h).1 >= st.1,
{
    let n = place_full(st, s, h);
    assert forall|i: int, j: int| 0 <= i < j < n.0.len() implies !overlaps((#[trigger] n.0[i]).1, (#[trigger] n.0[j]).1) by {
        if j < st.0.len() {
            assert(n.0[i] == st.0[i] && n.0[j] == st.0[j]);
        } else {
            assert(n.0[i] == st.0[i]);
        }
    }
    assert forall|i: int| 0 <= i < n.0.len() implies (#[trigger] n.0[i]).1.y + n.0[i].1.height <= n.1 by {
        if i < st.0.len() {
            assert(n.0[i] == st.0[i]);
        }
    }
    assert forall|i: int| 0 <= i < n.0.len() implies (#[trigger] n.0[i]).1.height > 0 by {
        if i < st.0.len() {
            assert(n.0[i] == st.0[i]);
        }
    }
}

proof fn lemma_row_ok(st: ArrangeState, a: Surface, ha: int, a_on: bool, b: Surface, hb: int, b_on: bool)
    requires
        arrangement_ok(st),
        small_state(st),
        0 < ha <= 100,
        0 < hb <= 100,
    ensures
        arrangement_ok(place_row(st, a, ha, a_on, b, hb, b_on)),
        place_row(st, a, ha, a_on, b, hb, b_on).1 >= st.1,
{
    if a_on && b_on {
        let n = place_row(st, a, ha, a_on, b, hb, b_on);
        assert forall|i: int, j: int| 0 <= i < j < n.0.len() implies !overlaps((#[trigger] n.0[i]).1, (#[trigger] n.0[j]).1) by {
            if j < st.0.len() {
                assert(n.0[i] == st.0[i] && n.0[j] == st.0[j]);
            } else if i < st.0.len() {
                assert(n.0[i] == st.0[i]);
            }
        }
        assert forall|i: int| 0 <= i < n.0.len() implies (#[trigger] n.0[i]).1.y + n.0[i].1.height <= n.1 by {
            if i < st.0.len() {
                assert(n.0[i] == st.0[i]);
            }
        }
        assert forall|i: int| 0 <= i < n.0.len() implies (#[trigger] n.0[i]).1.height > 0 by {
            if i < st.0.len() {
                assert(n.0[i] == st.0[i]);
            }
        }
    } else if a_on {
        lemma_full_ok(st, a, ha);
    } else if b_on {
        lemma_full_ok(st, b, hb);
    }
}

/// No two surfaces of an arranged preset overlap, and all of them end above
/// the row where the catalog widgets start.
pub proof fn lemma_surfaces_do_not_overlap(f: WidgetConfig, coaching_on: bool)
    ensures
        arrangement_ok(arrangement_spec(f, coaching_on)),
        arrangement_spec(f, coaching_on).1 >= 10,
{
    let s0: ArrangeState = (Seq::empty(), 10, 10);
    let s1 = if surface_on(f, coaching_on, Surface::Telemetry) { place_full(s0, Surface::Telemetry, 52) } else { s0 };
    if surface_on(f, coaching_on, Surface::Telemetry) {
        lemma_full_ok(s0, Surface::Telemetry, 52);
    }
    let s2 = place_row(s1, Surface::Inputs, 96, surface_on(f, coaching_on, Surface::Inputs),
        Surface::LapTiming, 44, surface_on(f, coaching_on, Surface::LapTiming));
    lemma_row_ok(s1, Surface::Inputs, 96, surface_on(f, coaching_on, Surface::Inputs),
        Surface::LapTiming, 44, surface_on(f, coaching_on, Surface::LapTiming));
    let s3 = place_row(s2, Surface::Timing, 54, surface_on(f, coaching_on, Surface::Timing),
        Surface::Sectors, 44, surface_on(f, coaching_on, Surface::Sectors));
    lemma_row_ok(s2, Surface::Timing, 54, surface_on(f, coaching_on, Surface::Timing),
        Surface::Sectors, 44, surface_on(f, coaching_on, Surface::Sectors));
    let s4 = place_row(s3, Surface::MiniSectors, 44, surface_on(f, coaching_on, Surface::MiniSectors),
        Surface::Performance, 28, surface_on(f, coaching_on, Surface::Performance));
    lemma_row_ok(s3, Surface::MiniSectors, 44, surface_on(f, coaching_on, Surface::MiniSectors),
        Surface::Performance, 28, surface_on(f, coaching_on, Surface::Performance));
    if surface_on(f, coaching_on, Surface::Coaching) {
        lemma_full_ok(s4, Surface::Coaching, 58);
    }
}

proof fn lemma_rank_grows(ids: Seq<Seq<char>>, k: int, l: int)
    requires
        0 <= k < l <= ids.len(),
        ids[k] != "standings"@,
    ensures
        rank_among_others(ids, l) >= rank_among_others(ids, k) + 1,
    decreases l - k,
{
    if l == k + 1 {
    } else {
        lemma_rank_grows(ids, k, l - 1);
    }
}

/// Every catalog widget sits at or below `top`, and no two of them overlap,
/// when the ids are distinct.
pub proof fn lemma_extras_do_not_overlap(ids: Seq<Seq<char>>, top: int, start_z: int)
    requires
        ids.len() <= 100_000,
        0 <= top <= 10_000,
        0 <= start_z <= 10_000,
        forall|a: int, b: int| 0 <= a < b < ids.len() ==> ids[a] != ids[b],
    ensures
        forall|k: int| 0 <= k < ids.len() ==> (#[trigger] extra_placement(ids, k, top, start_z)).y >= top,
        forall|k: int, l: int| 0 <= k < l < ids.len() ==>
            !overlaps(#[trigger] extra_placement(ids, k, top, start_z), #[trigger] extra_placement(ids, l, top, start_z)),
{
    assert forall|k: int| 0 <= k < ids.len() implies (#[trigger] extra_placement(ids, k, top, start_z)).y >= top by {
        lemma_rank_bounds(ids, k);
        let t = extra_slot(ids, k);
        assert(0 <= (t / 2) * 62 <= 4_000_000) by (nonlinear_arith)
            requires 0 <= t <= 100_004;
    }
    assert forall|k: int, l: int| 0 <= k < l < ids.len() implies
        !overlaps(#[trigger] extra_placement(ids, k, top, start_z), #[trigger] extra_placement(ids, l, top, start_z)) by {
        lemma_rank_bounds(ids, k);
        lemma_rank_bounds(ids, l);
        let pk = extra_placement(ids, k, top, start_z);
        let pl = extra_placement(ids, l, top, start_z);
        let tk = extra_slot(ids, k);
        let tl = extra_slot(ids, l);
        assert(0 <= (tk / 2) * 62 <= 4_000_000) by (nonlinear_arith)
            requires 0 <= tk <= 100_004;
        assert(0 <= (tl / 2) * 62 <= 4_000_000) by (nonlinear_arith)
            requires 0 <= tl <= 100_004;
        if ids[k] == "standings"@ {
            assert(ids[l] != "standings"@);
            assert(ids.contains("standings"@));
            assert(tl >= 4);
            assert((tl / 2) * 62 >= 124) by (nonlinear_arith)
                requires tl >= 4;
        } else if ids[l] == "standings"@ {
            assert(ids.contains("standings"@));
            assert(tk >= 4);
            assert((tk / 2) * 62 >= 124) by (nonlinear_arith)
                requires tk >= 4;
        } else {
            lemma_rank_grows(ids, k, l);
            assert(tl > tk);
            if tk / 2 == tl / 2 {
                assert(tk % 2 == 0 && tl % 2 == 1);
            } else {
                assert(tk / 2 < tl / 2);
                assert((tk / 2) * 62 + 62 <= (tl / 2) * 62) by (nonlinear_arith)
                    requires tk / 2 < tl / 2;
            }
        }
    }
}

/// In an arranged preset no two widgets overlap: the surfaces among
/// themselves, the catalog widgets among themselves (their ids being
/// distinct), and the catalog widgets, placed from the row after the last
/// surface, against the surfaces.
pub proof fn lemma_preset_layout_does_not_overlap(f: WidgetConfig, coaching_on: bool, ids: Seq<Seq<char>>)
    requires
        ids.len() <= 100_000,
        forall|a: int, b: int| 0 <= a < b < ids.len() ==> ids[a] != ids[b],
    ensures
        ({
            let st = arrangement_spec(f, coaching_on);
            &&& forall|i: int, j: int| 0 <= i < j < st.0.len() ==> !overlaps((#[trigger] st.0[i]).1, (#[trigger] st.0[j]).1)
            &&& forall|k: int, l: int| 0 <= k < l < ids.len() ==>
                !overlaps(#[trigger] extra_placement(ids, k, st.1, st.2), #[trigger] extra_placement(ids, l, st.1, st.2))
            &&& forall|i: int, k: int| 0 <= i < st.0.len() && 0 <= k < ids.len() ==>
                !overlaps((#[trigger] st.0[i]).1, #[trigger] extra_placement(ids, k, st.1, st.2))
        }),
{
    let st = arrangement_spec(f, coaching_on);
    lemma_surfaces_do_not_overlap(f, coaching_on);
    assert(10 <= st.1 <= 1000 && 10 <= st.2 <= 1000);
    lemma_extras_do_not_overlap(ids, st.1, st.2);
    assert forall|i: int, k: int| 0 <= i < st.0.len() && 0 <= k < ids.len() implies
        !overlaps((#[trigger] st.0[i]).1, #[trigger] extra_placement(ids, k, st.1, st.2)) by {
        assert(st.0[i].1.y + st.0[i].1.height <= st.1);
        assert(extra_placement(ids, k, st.1, st.2).y >= st.1);
    }
}


/// The fixed choices of a built-in preset: its performance and reference
/// modes, its mini-sector count, its built-in widgets and the catalog
/// widgets it switches on.
#[derive(Debug, Clone, PartialEq, Eq)]
pub struct PresetProfile {
    pub performance_mode: &'static str,
    pub reference_mode: &'static str,
    pub mini_sectors: u16,
    pub widgets: WidgetConfig,
    pub extra_widgets: Vec<&'static str>,
}

/// The built-in widgets of a preset.
pub open spec fn preset_widgets(slot: PresetSlot) -> WidgetConfig {
    match slot {
        PresetSlot::Practice | PresetSlot::Qualifying => WidgetConfig {
            title: true, speed_gear_rpm: true, pedals: true, steering: true, lap_info: true, lap_timing: true,
            sectors: true, mini_sector_widget: true, input_history: true, delta_timing: true, ghost_inputs: true,
            coaching: true, performance_monitor: false,
        },
        PresetSlot::Race => WidgetConfig {
            title: false, speed_gear_rpm: true, pedals: true, steering: false, lap_info: true, lap_timing: true,
            sectors: true, mini_sector_widget: true, input_history: false, delta_timing: true, ghost_inputs: false,
            coaching: false, performance_monitor: false,
        },
        PresetSlot::Endurance => WidgetConfig {
            title: false, speed_gear_rpm: true, pedals: false, steering: false, lap_info: true, lap_timing: true,
            sectors: true, mini_sector_widget: false, input_history: false, delta_timing: true, ghost_inputs: false,
            coaching: false, performance_monitor: false,
        },
        PresetSlot::Minimal => WidgetConfig {
            title: false, speed_gear_rpm: true, pedals: true, steering: false, lap_info: false, lap_timing: false,
            sectors: false, mini_sector_widget: false, input_history: false, delta_timing: true, ghost_inputs: false,
            coaching: false, performance_monitor: false,
        },
    }
}

/// The modes and mini-sector count of a preset.
pub open spec fn preset_modes(slot: PresetSlot) -> (Seq<char>, Seq<char>, u16) {
    match slot {
        PresetSlot::Practice => ("normal"@, "last_lap"@, 40u16),
        PresetSlot::Qualifying => ("high_refresh"@, "personal_best"@, 60u16),
        PresetSlot::Race => ("eco"@, "session_best"@, 20u16),
        PresetSlot::Endurance => ("eco"@, "session_best"@, 20u16),
        PresetSlot::Minimal => ("normal"@, "personal_best"@, 20u16),
    }
}

/// The catalog widgets a preset switches on.
pub open spec fn preset_extras(slot: PresetSlot) -> Seq<Seq<char>> {
    match slot {
        PresetSlot::Practice => seq!["tyres"@, "brakes"@, "fuel"@, "engine"@, "weather"@],
        PresetSlot::Qualifying => seq!["tyres"@, "brakes"@, "engine"@],
        PresetSlot::Race => seq!["position"@, "relative"@, "standings"@, "fuel"@, "flags"@],
        PresetSlot::Endurance => seq!["position"@, "relative"@, "standings"@, "fuel"@, "energy"@, "tyres"@,
            "brakes"@, "engine"@, "weather"@, "damage"@],
        PresetSlot::Minimal => Seq::empty(),
    }
}

pub open spec fn str_views(v: Seq<&'static str>) -> Seq<Seq<char>> {
    v.map_values(|s: &'static str| s@)
}

fn strs(items: &[&'static str]) -> (v: Vec<&'static str>)
    ensures
        v@ == items@,
{
    let mut v: Vec<&'static str> = Vec::new();
    let mut i: usize = 0;
    while i < items.len()
        invariant
            i <= items@.len(),
            v@ == items@.subrange(0, i as int),
        decreases items.len() - i,
    {
        v.push(items[i]);
        proof {
            assert(items@.subrange(0, i + 1) =~= items@.subrange(0, i as int).push(items@[i as int]));
        }
        i = i + 1;
    }
    proof {
        assert(items@.subrange(0, items@.len() as int) =~= items@);
    }
    v
}

/// The fixed choices of the built-in preset `slot`.
pub fn preset_profile(slot: PresetSlot) -> (p: PresetProfile)
    ensures
        (p.performance_mode@, p.reference_mode@, p.mini_sectors) == preset_modes(slot),
        p.widgets == preset_widgets(slot),
        str_views(p.extra_widgets@) == preset_extras(slot),
{
    let all = WidgetConfig {
        title: true, speed_gear_rpm: true, pedals: true, steering: true, lap_info: true, lap_timing: true,
        sectors: true, mini_sector_widget: true, input_history: true, delta_timing: true, ghost_inputs: true,
        coaching: true, performance_monitor: false,
    };
    match slot {
        PresetSlot::Practice => {
            let extras = strs(&["tyres", "brakes", "fuel", "engine", "weather"]);
            assert(str_views(extras@) =~= preset_extras(slot));
            PresetProfile { performance_mode: "normal", reference_mode: "last_lap", mini_sectors: 40, widgets: all, extra_widgets: extras }
        },
        PresetSlot::Qualifying => {
            let extras = strs(&["tyres", "brakes", "engine"]);
            assert(str_views(extras@) =~= preset_extras(slot));
            PresetProfile { performance_mode: "high_refresh", reference_mode: "personal_best", mini_sectors: 60, widgets: all, extra_widgets: extras }
        },
        PresetSlot::Race => {
            let extras = strs(&["position", "relative", "standings", "fuel", "flags"]);
            assert(str_views(extras@) =~= preset_extras(slot));
            PresetProfile {
                performance_mode: "eco",
                reference_mode: "session_best",
                mini_sectors: 20,
                widgets: WidgetConfig {
                    title: false, speed_gear_rpm: true, pedals: true, steering: false, lap_info: true, lap_timing: true,
                    sectors: true, mini_sector_widget: true, input_history: false, delta_timing: true, ghost_inputs: false,
                    coaching: false, performance_monitor: false,
                },
                extra_widgets: extras,
            }
        },
        PresetSlot::Endurance => {
            let extras = strs(&["position", "relative", "standings", "fuel", "energy", "tyres", "brakes", "engine", "weather", "damage"]);
            assert(str_views(extras@) =~= preset_extras(slot));
            PresetProfile {
                performance_mode: "eco",
                reference_mode: "session_best",
                mini_sectors: 20,
                widgets: WidgetConfig {
                    title: false, speed_gear_rpm: true, pedals: false, steering: false, lap_info: true, lap_timing: true,
                    sectors: true, mini_sector_widget: false, input_history: false, delta_timing: true, ghost_inputs: false,
                    coaching: false, performance_monitor: false,
                },
                extra_widgets: extras,
            }
        },
        PresetSlot::Minimal => {
            let extras: Vec<&'static str> = Vec::new();
            assert(str_views(extras@) =~= preset_extras(slot));
            PresetProfile {
                performance_mode: "normal",
                reference_mode: "personal_best",
                mini_sectors: 20,
                widgets: WidgetConfig {
                    title: false, speed_gear_rpm: true, pedals: true, steering: false, lap_info: false, lap_timing: false,
                    sectors: false, mini_sector_widget: false, input_history: false, delta_timing: true, ghost_inputs: false,
                    coaching: false, performance_monitor: false,
                },
                extra_widgets: extras,
            }
        },
    }
}

/// The fingerprint a built-in preset leaves in the running configuration.
pub open spec fn builtin_fingerprint(slot: PresetSlot) -> (Seq<char>, Seq<char>, u16, WidgetConfig) {
    (preset_modes(slot).0, preset_modes(slot).1, preset_modes(slot).2, preset_widgets(slot))
}

/// With the shipped presets saved, the preset hotkey goes from practice to
/// qualifying, race, endurance, minimal and back to practice.
pub proof fn lemma_shipped_presets_cycle(saved: SavedPresets, slot: PresetSlot)
    requires
        forall|s: PresetSlot| #[trigger] config::saved_fingerprint(saved, s) == builtin_fingerprint(s),
    ensures
        config::next_preset_spec(builtin_fingerprint(slot), saved) == config::slot_after(slot),
{
    reveal_strlit("normal");
    reveal_strlit("eco");
    assert("normal"@.len() == 6);
    assert("eco"@.len() == 3);
    assert(config::saved_fingerprint(saved, PresetSlot::Practice) == builtin_fingerprint(PresetSlot::Practice));
    assert(config::saved_fingerprint(saved, PresetSlot::Qualifying) == builtin_fingerprint(PresetSlot::Qualifying));
    assert(config::saved_fingerprint(saved, PresetSlot::Race) == builtin_fingerprint(PresetSlot::Race));
    assert(config::saved_fingerprint(saved, PresetSlot::Endurance) == builtin_fingerprint(PresetSlot::Endurance));
    assert(config::saved_fingerprint(saved, PresetSlot::Minimal) == builtin_fingerprint(PresetSlot::Minimal));
    assert forall|a: PresetSlot, b: PresetSlot| a != b implies
        #[trigger] config::saved_fingerprint(saved, a) != #[trigger] config::saved_fingerprint(saved, b) by {
        assert(config::saved_fingerprint(saved, a) == builtin_fingerprint(a));
        assert(config::saved_fingerprint(saved, b) == builtin_fingerprint(b));
    }
    config::lemma_preset_hotkey_cycles(saved, slot);
}

} // verus!
