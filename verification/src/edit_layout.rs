//! Edit mode: the integer geometry of moving, resizing and snapping widgets
//! on the overlay, their stacking order, and what a pointer position hits.

use vstd::prelude::*;
use crate::overlay_text::{self, snap_i32, Area};
use crate::config;

verus! {

/// The integer part of a widget's layout: position, size, lock and
/// stacking index (its scale and opacity are kept beside it).
#[derive(Debug, Clone, Copy, PartialEq, Eq, Structural)]
pub struct LayoutBox {
    pub x: i32,
    pub y: i32,
    pub width: i32,
    pub height: i32,
    pub locked: bool,
    pub z_index: i32,
}

/// Distance from an edge within which the pointer grabs it for resizing.
pub const EDIT_HIT_MARGIN: i32 = 16;

/// The box with each value brought into its allowed range.
pub open spec fn normalized_box(b: LayoutBox) -> LayoutBox {
    LayoutBox {
        x: config::clamp(b.x as int, -2000, 8000) as i32,
        y: config::clamp(b.y as int, -2000, 8000) as i32,
        width: config::clamp(b.width as int, 48, 1600) as i32,
        height: config::clamp(b.height as int, 20, 1000) as i32,
        locked: b.locked,
        z_index: config::clamp(b.z_index as int, -1000, 1000) as i32,
    }
}

fn clamp_i32(v: i32, lo: i32, hi: i32) -> (r: i32)
    requires
        lo <= hi,
    ensures
        r == config::clamp(v as int, lo as int, hi as int),
{
    if v < lo { lo } else if v > hi { hi } else { v }
}

/// Brings position, size and stacking index into their allowed ranges.
pub fn normalize_box(b: &mut LayoutBox)
    ensures
        *final(b) == normalized_box(*old(b)),
{
    b.x = clamp_i32(b.x, -2000, 8000);
    b.y = clamp_i32(b.y, -2000, 8000);
    b.width = clamp_i32(b.width, 48, 1600);
    b.height = clamp_i32(b.height, 20, 1000);
    b.z_index = clamp_i32(b.z_index, -1000, 1000);
}

/// Normalizing twice changes nothing more than normalizing once.
pub proof fn lemma_normalize_box_idempotent(b: LayoutBox)
    ensures
        normalized_box(normalized_box(b)) == normalized_box(b),
{
}

pub open spec fn abs(v: int) -> int {
    if v < 0 { -v } else { v }
}

/// Values of the size that dragging a widget produces: far from the limits
/// of `i32`.
pub open spec fn in_drag_range(v: int) -> bool {
    -1_000_000 <= v <= 1_000_000
}

/// A position snapped to the window's edges along one axis: to the start
/// when it is within `d` of it, then to the far edge when the widget's far
/// side is within `d` of it.
pub open spec fn snapped_to_edges(pos: int, size: int, extent: int, d: int) -> int {
    let p = if abs(pos) <= d { 0 } else { pos };
    if abs(extent - (p + size)) <= d { extent - size } else { p }
}

fn abs_i32(v: i32) -> (r: i32)
    requires
        v > i32::MIN,
    ensures
        r == abs(v as int),
{
    if v < 0 { -v } else { v }
}

/// Snaps a widget to the window's edges (nothing happens when the snap
/// distance is not positive).
pub fn snap_to_edges(b: &mut LayoutBox, window_width: i32, window_height: i32, snap_distance: i32)
    requires
        in_drag_range(old(b).x as int),
        in_drag_range(old(b).y as int),
        in_drag_range(old(b).width as int),
        in_drag_range(old(b).height as int),
        in_drag_range(window_width as int),
        in_drag_range(window_height as int),
    ensures
        snap_distance <= 0 ==> *final(b) == *old(b),
        snap_distance > 0 ==> *final(b) == (LayoutBox {
            x: snapped_to_edges(old(b).x as int, old(b).width as int, window_width as int, snap_distance as int) as i32,
            y: snapped_to_edges(old(b).y as int, old(b).height as int, window_height as int, snap_distance as int) as i32,
            ..*old(b)
        }),
{
    if snap_distance <= 0 {
        return;
    }
    if abs_i32(b.x) <= snap_distance {
        b.x = 0;
    }
    if abs_i32(b.y) <= snap_distance {
        b.y = 0;
    }
    let right_gap = window_width - (b.x + b.width);
    if abs_i32(right_gap) <= snap_distance {
        b.x = window_width - b.width;
    }
    let bottom_gap = window_height - (b.y + b.height);
    if abs_i32(bottom_gap) <= snap_distance {
        b.y = window_height - b.height;
    }
}

/// The grid actually used: 5, 10 or 20, anything else meaning 10.
pub open spec fn grid_used(grid_size: int) -> int {
    if grid_size == 5 || grid_size == 10 || grid_size == 20 { grid_size } else { 10 }
}

pub open spec fn snapped(v: int, grid: int) -> int {
    overlay_text::rounded_quotient(v, grid) * grid
}

pub open spec fn max_int(a: int, b: int) -> int {
    if a >= b { a } else { b }
}

/// Snaps position and size to the grid; the size stays at least 48 by 20.
pub fn snap_to_grid(b: &mut LayoutBox, grid_size: i32)
    requires
        in_drag_range(old(b).x as int),
        in_drag_range(old(b).y as int),
        in_drag_range(old(b).width as int),
        in_drag_range(old(b).height as int),
    ensures
        ({
            let g = grid_used(grid_size as int);
            *final(b) == (LayoutBox {
                x: snapped(old(b).x as int, g) as i32,
                y: snapped(old(b).y as int, g) as i32,
                width: max_int(snapped(old(b).width as int, g), 48) as i32,
                height: max_int(snapped(old(b).height as int, g), 20) as i32,
                ..*old(b)
            })
        }),
{
    let g: i32 = if grid_size == 5 || grid_size == 10 || grid_size == 20 { grid_size } else { 10 };
    b.x = snap_i32(b.x, g);
    b.y = snap_i32(b.y, g);
    let w = snap_i32(b.width, g);
    b.width = if w >= 48 { w } else { 48 };
    let h = snap_i32(b.height, g);
    b.height = if h >= 20 { h } else { 20 };
}

/// One step of snapping a position along one axis to another widget's
/// area (`o_pos`, `o_size`): align the starts, the start to its end, the
/// end to its start, or the ends, the first that is within `d`.
pub open spec fn snap_axis(pos: int, size: int, o_pos: int, o_size: int, d: int) -> int {
    let o_end = o_pos + o_size;
    if abs(pos - o_pos) <= d {
        o_pos
    } else if abs(pos - o_end) <= d {
        o_end
    } else if abs(pos + size - o_pos) <= d {
        o_pos - size
    } else if abs(pos + size - o_end) <= d {
        o_end - size
    } else {
        pos
    }
}

/// The x position after snapping to each area of `others` in turn.
pub open spec fn snapped_x(pos: int, size: int, others: Seq<Area>, d: int) -> int
    decreases others.len(),
{
    if others.len() == 0 {
        pos
    } else {
        let o = others.last();
        snap_axis(snapped_x(pos, size, others.drop_last(), d), size, o.x as int, o.width as int, d)
    }
}

/// The y position after snapping to each area of `others` in turn.
pub open spec fn snapped_y(pos: int, size: int, others: Seq<Area>, d: int) -> int
    decreases others.len(),
{
    if others.len() == 0 {
        pos
    } else {
        let o = others.last();
        snap_axis(snapped_y(pos, size, others.drop_last(), d), size, o.y as int, o.height as int, d)
    }
}

/// Areas of widgets whose layout was normalized.
pub open spec fn area_in_range(a: Area) -> bool {
    &&& -2000 <= a.x <= 8000
    &&& -2000 <= a.y <= 8000
    &&& 0 <= a.width <= 3200
    &&& 0 <= a.height <= 2000
}

proof fn lemma_snap_axis_range(pos: int, size: int, o_pos: int, o_size: int, d: int)
    requires
        -10_000 <= pos <= 20_000,
        0 <= size <= 3200,
        -2000 <= o_pos <= 8000,
        0 <= o_size <= 3200,
    ensures
        -10_000 <= snap_axis(pos, size, o_pos, o_size, d) <= 20_000,
{
}

fn snap_axis_exec(pos: i32, size: i32, o_pos: i32, o_size: i32, d: i32) -> (r: i32)
    requires
        -10_000 <= pos <= 20_000,
        0 <= size <= 3200,
        -2000 <= o_pos <= 8000,
        0 <= o_size <= 3200,
    ensures
        r == snap_axis(pos as int, size as int, o_pos as int, o_size as int, d as int),
{
    let o_end = o_pos + o_size;
    if abs_i32(pos - o_pos) <= d {
        o_pos
    } else if abs_i32(pos - o_end) <= d {
        o_end
    } else if abs_i32(pos + size - o_pos) <= d {
        o_pos - size
    } else if abs_i32(pos + size - o_end) <= d {
        o_end - size
    } else {
        pos
    }
}

/// Snaps a widget (whose area on screen is `area_width` by `area_height`)
/// to the areas of the other widgets, one after the other.
pub fn snap_to_areas(b: &mut LayoutBox, area_width: i32, area_height: i32, others: &Vec<Area>, snap_distance: i32)
    requires
        -2000 <= old(b).x <= 8000,
        -2000 <= old(b).y <= 8000,
        0 <= area_width <= 3200,
        0 <= area_height <= 2000,
        forall|i: int| 0 <= i < others@.len() ==> area_in_range(#[trigger] others@[i]),
    ensures
        snap_distance <= 0 ==> *final(b) == *old(b),
        snap_distance > 0 ==> *final(b) == (LayoutBox {
            x: snapped_x(old(b).x as int, area_width as int, others@, snap_distance as int) as i32,
            y: snapped_y(old(b).y as int, area_height as int, others@, snap_distance as int) as i32,
            ..*old(b)
        }),
{
    if snap_distance <= 0 {
        return;
    }
    let ghost x0 = b.x as int;
    let ghost y0 = b.y as int;
    let mut i: usize = 0;
    while i < others.len()
        invariant
            i <= others@.len(),
            forall|k: int| 0 <= k < others@.len() ==> area_in_range(#[trigger] others@[k]),
            0 <= area_width <= 3200,
            0 <= area_height <= 2000,
            -10_000 <= b.x <= 20_000,
            -10_000 <= b.y <= 20_000,
            b.x == snapped_x(x0, area_width as int, others@.subrange(0, i as int), snap_distance as int),
            b.y == snapped_y(y0, area_height as int, others@.subrange(0, i as int), snap_distance as int),
            b.width == old(b).width,
            b.height == old(b).height,
            b.locked == old(b).locked,
            b.z_index == old(b).z_index,
        decreases others@.len() - i,
    {
        let o = others[i];
        proof {
            let next = others@.subrange(0, i + 1);
            assert(next.drop_last() =~= others@.subrange(0, i as int));
            assert(next.last() == o);
            assert(area_in_range(others@[i as int]));
            lemma_snap_axis_range(b.x as int, area_width as int, o.x as int, o.width as int, snap_distance as int);
            lemma_snap_axis_range(b.y as int, area_height as int, o.y as int, o.height as int, snap_distance as int);
        }
        b.x = snap_axis_exec(b.x, area_width, o.x, o.width, snap_distance);
        b.y = snap_axis_exec(b.y, area_height, o.y, o.height, snap_distance);
        i = i + 1;
    }
    proof {
        assert(others@.subrange(0, others@.len() as int) =~= others@);
    }
}


/// Widget `a` is drawn below widget `b`: a smaller stacking index, or the
/// same index and an earlier place in the list.
pub open spec fn stacked_below(z: Seq<i32>, a: int, b: int) -> bool {
    z[a] < z[b] || (z[a] == z[b] && a < b)
}

/// `order` holds each widget index once, bottom-most first.
pub open spec fn is_stacking(z: Seq<i32>, order: Seq<usize>) -> bool {
    &&& order.len() == z.len()
    &&& forall|k: int| 0 <= k < order.len() ==> #[trigger] order[k] < z.len()
    &&& forall|a: int, b: int| 0 <= a < b < order.len() ==> stacked_below(z, #[trigger] order[a] as int, #[trigger] order[b] as int)
}

/// The drawing order of widgets with stacking indices `z`: by stacking
/// index, ties in list order.
pub fn stacking_order(z: &Vec<i32>) -> (order: Vec<usize>)
    ensures
        is_stacking(z@, order@),
{
    let mut order: Vec<usize> = Vec::new();
    let mut i: usize = 0;
    while i < z.len()
        invariant
            i <= z.len(),
            order@.len() == i,
            forall|k: int| 0 <= k < order@.len() ==> #[trigger] order@[k] < i,
            forall|a: int, b: int| 0 <= a < b < order@.len() ==> stacked_below(z@, #[trigger] order@[a] as int, #[trigger] order@[b] as int),
        decreases z.len() - i,
    {
        let key = z[i];
        let mut p: usize = 0;
        while p < order.len() && z[order[p]] <= key
            invariant
                p <= order.len(),
                i < z@.len(),
                key == z@[i as int],
                forall|k: int| 0 <= k < order@.len() ==> (#[trigger] order@[k]) < i,
                forall|k: int| 0 <= k < p ==> z@[#[trigger] order@[k] as int] <= key,
            decreases order.len() - p,
        {
            p = p + 1;
        }
        let ghost before = order@;
        order.insert(p, i);
        proof {
            assert forall|k: int| 0 <= k < order@.len() implies #[trigger] order@[k] < i + 1 by {
                if k < p {
                    assert(order@[k] == before[k]);
                } else if k > p {
                    assert(order@[k] == before[k - 1]);
                }
            }
            assert forall|a: int, b: int| 0 <= a < b < order@.len() implies stacked_below(z@, #[trigger] order@[a] as int, #[trigger] order@[b] as int) by {
                if b < p {
                    assert(order@[a] == before[a] && order@[b] == before[b]);
                } else if b == p {
                    assert(order@[a] == before[a]);
                    assert(z@[before[a] as int] <= key);
                } else if a < p {
                    assert(order@[a] == before[a] && order@[b] == before[b - 1]);
                    assert(z@[before[p as int] as int] > key);
                    assert(stacked_below(z@, before[p as int] as int, before[b - 1] as int) || p == b - 1);
                } else if a == p {
                    assert(order@[b] == before[b - 1]);
                    assert(z@[before[p as int] as int] > key);
                    assert(stacked_below(z@, before[p as int] as int, before[b - 1] as int) || p == b - 1);
                } else {
                    assert(order@[a] == before[a - 1] && order@[b] == before[b - 1]);
                }
            }
        }
        i = i + 1;
    }
    order
}

/// Whether the point lies in the area, edges included.
pub open spec fn area_contains(a: Area, x: int, y: int) -> bool {
    a.x <= x <= a.x + a.width && a.y <= y <= a.y + a.height
}

/// Whether widget `k` (of areas in drawing order) can be picked at the point.
pub open spec fn pickable(areas: Seq<Area>, locked: Seq<bool>, k: int, x: int, y: int) -> bool {
    area_contains(areas[k], x, y) && !locked[k]
}

/// The widget under the pointer: the top-most (last drawn) unlocked one
/// whose area holds the point; none while every widget is locked.
pub fn hit_index(areas: &Vec<Area>, locked: &Vec<bool>, lock_all: bool, x: i32, y: i32) -> (r: Option<usize>)
    requires
        areas@.len() == locked@.len(),
        forall|k: int| 0 <= k < areas@.len() ==> area_in_range(#[trigger] areas@[k]),
    ensures
        lock_all ==> r is None,
        !lock_all ==> (r matches Some(k) ==> k < areas@.len() && pickable(areas@, locked@, k as int, x as int, y as int)
            && forall|j: int| k < j < areas@.len() ==> !pickable(areas@, locked@, j, x as int, y as int)),
        !lock_all ==> (r is None ==> forall|j: int| 0 <= j < areas@.len() ==> !pickable(areas@, locked@, j, x as int, y as int)),
{
    if lock_all {
        return None;
    }
    let mut k: usize = areas.len();
    while k > 0
        invariant
            k <= areas@.len(),
            !lock_all,
            areas@.len() == locked@.len(),
            forall|j: int| 0 <= j < areas@.len() ==> area_in_range(#[trigger] areas@[j]),
            forall|j: int| k <= j < areas@.len() ==> !pickable(areas@, locked@, j, x as int, y as int),
        decreases k,
    {
        let a = areas[k - 1];
        proof {
            assert(area_in_range(areas@[k - 1]));
        }
        if a.contains(x, y) && !locked[k - 1] {
            return Some(k - 1);
        }
        k = k - 1;
    }
    None
}

/// What the pointer is over in edit mode, for the window manager.
#[derive(Debug, Clone, Copy, PartialEq, Eq, Structural)]
pub enum FrameHit {
    /// A widget: the overlay handles the pointer itself.
    Client,
    BottomRight,
    Right,
    Bottom,
    /// Elsewhere: the whole window is dragged.
    Caption,
}

pub open spec fn saturating_sub(a: int, b: int) -> int {
    if a - b < i32::MIN { i32::MIN as int } else if a - b > i32::MAX { i32::MAX as int } else { a - b }
}

pub open spec fn frame_hit_spec(on_widget: bool, right: int, bottom: int, x: int, y: int) -> FrameHit {
    let near_right = x >= saturating_sub(right, EDIT_HIT_MARGIN as int);
    let near_bottom = y >= saturating_sub(bottom, EDIT_HIT_MARGIN as int);
    if on_widget {
        FrameHit::Client
    } else if near_right && near_bottom {
        FrameHit::BottomRight
    } else if near_right {
        FrameHit::Right
    } else if near_bottom {
        FrameHit::Bottom
    } else {
        FrameHit::Caption
    }
}

fn minus_margin(v: i32) -> (r: i32)
    ensures
        r == saturating_sub(v as int, EDIT_HIT_MARGIN as int),
{
    let w = v as i64 - EDIT_HIT_MARGIN as i64;
    if w < i32::MIN as i64 { i32::MIN } else { w as i32 }
}

/// What the pointer at (`x`, `y`) is over: a widget, the window's resize
/// edges (within the margin of its right and bottom sides), or the caption.
pub fn frame_hit(on_widget: bool, right: i32, bottom: i32, x: i32, y: i32) -> (h: FrameHit)
    ensures
        h == frame_hit_spec(on_widget, right as int, bottom as int, x as int, y as int),
{
    if on_widget {
        return FrameHit::Client;
    }
    let near_right = x >= minus_margin(right);
    let near_bottom = y >= minus_margin(bottom);
    if near_right && near_bottom {
        FrameHit::BottomRight
    } else if near_right {
        FrameHit::Right
    } else if near_bottom {
        FrameHit::Bottom
    } else {
        FrameHit::Caption
    }
}

/// A drag in progress: where the pointer and the widget started, and
/// whether the widget is being resized rather than moved.
#[derive(Debug, Clone, Copy, PartialEq, Eq, Structural)]
pub struct DragState {
    pub widget: usize,
    pub start_mouse_x: i32,
    pub start_mouse_y: i32,
    pub start_x: i32,
    pub start_y: i32,
    pub start_width: i32,
    pub start_height: i32,
    pub resize: bool,
}

/// Starts dragging `widget`, whose area is `area`: a press within the
/// margin of its bottom-right corner resizes it, anywhere else moves it.
pub fn start_drag(widget: usize, area: Area, mouse_x: i32, mouse_y: i32) -> (d: DragState)
    requires
        area_in_range(area),
        -40_000 <= mouse_x <= 40_000,
        -40_000 <= mouse_y <= 40_000,
    ensures
        d == (DragState {
            widget,
            start_mouse_x: mouse_x,
            start_mouse_y: mouse_y,
            start_x: area.x,
            start_y: area.y,
            start_width: area.width,
            start_height: area.height,
            resize: area.x + area.width - mouse_x <= EDIT_HIT_MARGIN && area.y + area.height - mouse_y <= EDIT_HIT_MARGIN,
        }),
{
    DragState {
        widget,
        start_mouse_x: mouse_x,
        start_mouse_y: mouse_y,
        start_x: area.x,
        start_y: area.y,
        start_width: area.width,
        start_height: area.height,
        resize: area.right() - mouse_x <= EDIT_HIT_MARGIN && area.bottom() - mouse_y <= EDIT_HIT_MARGIN,
    }
}

/// The snapping settings of edit mode.
#[derive(Debug, Clone, Copy, PartialEq, Eq, Structural)]
pub struct SnapSettings {
    pub snap_to_edges: bool,
    pub snap_to_grid: bool,
    pub grid_size: i32,
    pub snap_distance: i32,
}

impl Default for SnapSettings {
    /// Snapping to the window's edges within 12 pixels; the grid (10 pixels)
    /// off.
    fn default() -> (s: Self)
        ensures
            s == (SnapSettings { snap_to_edges: true, snap_to_grid: false, grid_size: 10, snap_distance: 12 }),
    {
        SnapSettings { snap_to_edges: true, snap_to_grid: false, grid_size: 10, snap_distance: 12 }
    }
}

/// The size a resize drag gives: the start size plus the pointer's travel,
/// at least `min` and at most the window (or `min` when that is smaller).
pub open spec fn resized(start: int, delta: int, min: int, window: int) -> int {
    config::clamp(start + delta, min, max_int(window, min))
}

/// The layout after the pointer moved to (`mouse_x`, `mouse_y`) during
/// `drag`, before the configuration is repaired and the widget is snapped
/// to the other widgets.
pub open spec fn dragged_box(drag: DragState, mouse_x: int, mouse_y: int, b: LayoutBox, window_width: int, window_height: int, s: SnapSettings) -> LayoutBox {
    let dx = mouse_x - drag.start_mouse_x;
    let dy = mouse_y - drag.start_mouse_y;
    let moved = if drag.resize {
        LayoutBox {
            width: resized(drag.start_width as int, dx, 48, window_width) as i32,
            height: resized(drag.start_height as int, dy, 20, window_height) as i32,
            ..b
        }
    } else {
        let p = LayoutBox { x: (drag.start_x + dx) as i32, y: (drag.start_y + dy) as i32, ..b };
        if s.snap_to_edges && s.snap_distance > 0 {
            LayoutBox {
                x: snapped_to_edges(p.x as int, p.width as int, window_width, s.snap_distance as int) as i32,
                y: snapped_to_edges(p.y as int, p.height as int, window_height, s.snap_distance as int) as i32,
                ..p
            }
        } else {
            p
        }
    };
    if s.snap_to_grid {
        let g = grid_used(s.grid_size as int);
        LayoutBox {
            x: snapped(moved.x as int, g) as i32,
            y: snapped(moved.y as int, g) as i32,
            width: max_int(snapped(moved.width as int, g), 48) as i32,
            height: max_int(snapped(moved.height as int, g), 20) as i32,
            ..moved
        }
    } else {
        moved
    }
}

/// Moves or resizes the dragged widget's layout to follow the pointer,
/// snapping it to the window's edges and to the grid as configured.
pub fn drag_to(drag: DragState, mouse_x: i32, mouse_y: i32, b: &mut LayoutBox, window_width: i32, window_height: i32, s: SnapSettings)
    requires
        -40_000 <= mouse_x <= 40_000,
        -40_000 <= mouse_y <= 40_000,
        -40_000 <= drag.start_mouse_x <= 40_000,
        -40_000 <= drag.start_mouse_y <= 40_000,
        -10_000 <= drag.start_x <= 10_000,
        -10_000 <= drag.start_y <= 10_000,
        0 <= drag.start_width <= 10_000,
        0 <= drag.start_height <= 10_000,
        0 <= old(b).width <= 10_000,
        0 <= old(b).height <= 10_000,
        -10_000 <= old(b).x <= 10_000,
        -10_000 <= old(b).y <= 10_000,
        0 <= window_width <= 10_000,
        0 <= window_height <= 10_000,
    ensures
        *final(b) == dragged_box(drag, mouse_x as int, mouse_y as int, *old(b), window_width as int, window_height as int, s),
{
    let dx = mouse_x - drag.start_mouse_x;
    let dy = mouse_y - drag.start_mouse_y;
    if drag.resize {
        let max_w = if window_width >= 48 { window_width } else { 48 };
        let max_h = if window_height >= 20 { window_height } else { 20 };
        b.width = clamp_i32(drag.start_width + dx, 48, max_w);
        b.height = clamp_i32(drag.start_height + dy, 20, max_h);
    } else {
        b.x = drag.start_x + dx;
        b.y = drag.start_y + dy;
        if s.snap_to_edges {
            snap_to_edges(b, window_width, window_height, s.snap_distance);
        }
    }
    if s.snap_to_grid {
        snap_to_grid(b, s.grid_size);
    }
}


impl SnapSettings {
    /// Any grid other than 5, 10 or 20 becomes 10; the snap distance is
    /// kept between 0 and 64.
    pub fn normalize(&mut self)
        ensures
            final(self).grid_size == grid_used(old(self).grid_size as int),
            final(self).snap_distance == config::clamp(old(self).snap_distance as int, 0, 64),
            final(self).snap_to_edges == old(self).snap_to_edges,
            final(self).snap_to_grid == old(self).snap_to_grid,
    {
        if !(self.grid_size == 5 || self.grid_size == 10 || self.grid_size == 20) {
            self.grid_size = 10;
        }
        self.snap_distance = clamp_i32(self.snap_distance, 0, 64);
    }
}


/// The ranges a drag is made in: pointer, start position and size, widget
/// and window as the edit mode hands them over.
pub open spec fn drag_in_range(drag: DragState, mouse_x: int, mouse_y: int, b: LayoutBox, window_width: int, window_height: int) -> bool {
    &&& -40_000 <= mouse_x <= 40_000
    &&& -40_000 <= mouse_y <= 40_000
    &&& -40_000 <= drag.start_mouse_x <= 40_000
    &&& -40_000 <= drag.start_mouse_y <= 40_000
    &&& -10_000 <= drag.start_x <= 10_000
    &&& -10_000 <= drag.start_y <= 10_000
    &&& 0 <= b.width <= 10_000
    &&& 0 <= b.height <= 10_000
    &&& 0 <= window_width <= 10_000
    &&& 0 <= window_height <= 10_000
}

/// Moving a widget with edge snapping on (and the grid off) keeps its size
/// and puts each side where the window's edges call for: along each axis
/// the widget lands at the window's far edge when its far side ends within
/// the snap distance of it, else at the near edge when its near side starts
/// within the snap distance of it, else where the pointer took it. The
/// vertical position depends on the height only, the horizontal one on the
/// width only.
pub proof fn lemma_move_drag_snaps_to_window_edges(
    drag: DragState,
    mouse_x: int,
    mouse_y: int,
    b: LayoutBox,
    window_width: int,
    window_height: int,
    s: SnapSettings,
)
    requires
        !drag.resize,
        s.snap_to_edges,
        !s.snap_to_grid,
        s.snap_distance > 0,
        drag_in_range(drag, mouse_x, mouse_y, b, window_width, window_height),
    ensures
        ({
            let r = dragged_box(drag, mouse_x, mouse_y, b, window_width, window_height, s);
            let x0 = drag.start_x + (mouse_x - drag.start_mouse_x);
            let y0 = drag.start_y + (mouse_y - drag.start_mouse_y);
            let d = s.snap_distance as int;
            &&& r.width == b.width
            &&& r.height == b.height
            &&& r.locked == b.locked
            &&& r.z_index == b.z_index
            &&& (abs(y0) > d && abs(window_height - (y0 + b.height)) <= d ==> r.y == window_height - b.height)
            &&& (abs(y0) > d && abs(window_height - (y0 + b.height)) > d ==> r.y == y0)
            &&& (abs(y0) <= d && abs(window_height - b.height) <= d ==> r.y == window_height - b.height)
            &&& (abs(y0) <= d && abs(window_height - b.height) > d ==> r.y == 0)
            &&& (abs(x0) > d && abs(window_width - (x0 + b.width)) <= d ==> r.x == window_width - b.width)
            &&& (abs(x0) > d && abs(window_width - (x0 + b.width)) > d ==> r.x == x0)
            &&& (abs(x0) <= d && abs(window_width - b.width) <= d ==> r.x == window_width - b.width)
            &&& (abs(x0) <= d && abs(window_width - b.width) > d ==> r.x == 0)
        }),
{
}

/// Along each axis a moved widget's position depends on its own size along
/// that axis only: two widgets of the same height land at the same height,
/// two of the same width at the same horizontal position.
pub proof fn lemma_move_drag_axes_independent(
    drag: DragState,
    mouse_x: int,
    mouse_y: int,
    b1: LayoutBox,
    b2: LayoutBox,
    window_width: int,
    window_height: int,
    s: SnapSettings,
)
    requires
        !drag.resize,
        drag_in_range(drag, mouse_x, mouse_y, b1, window_width, window_height),
        drag_in_range(drag, mouse_x, mouse_y, b2, window_width, window_height),
    ensures
        b1.height == b2.height ==>
            dragged_box(drag, mouse_x, mouse_y, b1, window_width, window_height, s).y
                == dragged_box(drag, mouse_x, mouse_y, b2, window_width, window_height, s).y,
        b1.width == b2.width ==>
            dragged_box(drag, mouse_x, mouse_y, b1, window_width, window_height, s).x
                == dragged_box(drag, mouse_x, mouse_y, b2, window_width, window_height, s).x,
{
}


/// Resizing a widget (grid off) keeps its position and gives it the start
/// size plus the pointer's travel, held to at least 48 by 20 and at most the
/// window (when the window is at least that large).
pub proof fn lemma_resize_drag(
    drag: DragState,
    mouse_x: int,
    mouse_y: int,
    b: LayoutBox,
    window_width: int,
    window_height: int,
    s: SnapSettings,
)
    requires
        drag.resize,
        !s.snap_to_grid,
        drag_in_range(drag, mouse_x, mouse_y, b, window_width, window_height),
        0 <= drag.start_width <= 10_000,
        0 <= drag.start_height <= 10_000,
    ensures
        ({
            let r = dragged_box(drag, mouse_x, mouse_y, b, window_width, window_height, s);
            let w = drag.start_width + (mouse_x - drag.start_mouse_x);
            let h = drag.start_height + (mouse_y - drag.start_mouse_y);
            &&& r.x == b.x && r.y == b.y && r.locked == b.locked && r.z_index == b.z_index
            &&& r.width >= 48 && r.height >= 20
            &&& (window_width >= 48 ==> r.width <= window_width)
            &&& (window_height >= 20 ==> r.height <= window_height)
            &&& (48 <= w <= window_width ==> r.width == w)
            &&& (20 <= h <= window_height ==> r.height == h)
            &&& (w < 48 ==> r.width == 48)
            &&& (h < 20 ==> r.height == 20)
        }),
{
}

/// Snapping to the grid moves a value to the nearest multiple of the grid
/// (5, 10 or 20; any other setting means 10), a value halfway between two
/// multiples away from zero.
pub proof fn lemma_grid_snap_nearest(v: int, grid_size: int)
    ensures
        ({
            let g = grid_used(grid_size);
            let r = snapped(v, g);
            &&& g == 5 || g == 10 || g == 20
            &&& r % g == 0
            &&& 2 * abs(r - v) <= g
            &&& (2 * abs(r - v) == g ==> abs(r) > abs(v))
        }),
{
    let g = grid_used(grid_size);
    if g == 5 {
        assert(snapped(v, 5) % 5 == 0 && 2 * abs(snapped(v, 5) - v) <= 5) by (nonlinear_arith);
    }
}

/// The drawing order lists each widget at most once, by stacking index,
/// widgets of equal index in list order.
pub proof fn lemma_stacking_laws(z: Seq<i32>, order: Seq<usize>)
    requires
        is_stacking(z, order),
    ensures
        forall|a: int, b: int| 0 <= a < b < order.len() ==> {
            &&& z[#[trigger] order[a] as int] <= z[#[trigger] order[b] as int]
            &&& (z[order[a] as int] == z[order[b] as int] ==> order[a] < order[b])
            &&& order[a] != order[b]
        },
{
}

/// Outside the widgets, the pointer grabs the window's right edge, its
/// bottom edge or their corner when it is within the margin of them, and
/// the caption anywhere else; over a widget it is the widget's.
pub proof fn lemma_frame_hit_regions(on_widget: bool, right: int, bottom: int, x: int, y: int)
    requires
        i32::MIN + EDIT_HIT_MARGIN <= right <= i32::MAX,
        i32::MIN + EDIT_HIT_MARGIN <= bottom <= i32::MAX,
    ensures
        on_widget ==> frame_hit_spec(on_widget, right, bottom, x, y) == FrameHit::Client,
        !on_widget ==> {
            let near_right = right - x <= EDIT_HIT_MARGIN;
            let near_bottom = bottom - y <= EDIT_HIT_MARGIN;
            let h = frame_hit_spec(on_widget, right, bottom, x, y);
            &&& (h == FrameHit::BottomRight <==> near_right && near_bottom)
            &&& (h == FrameHit::Right <==> near_right && !near_bottom)
            &&& (h == FrameHit::Bottom <==> !near_right && near_bottom)
            &&& (h == FrameHit::Caption <==> !near_right && !near_bottom)
            &&& h != FrameHit::Client
        },
{
}

/// A normalized box lies in the allowed ranges, and a box already in them
/// is left as it is.
pub proof fn lemma_normalized_box_ranges(b: LayoutBox)
    ensures
        -2000 <= normalized_box(b).x <= 8000,
        -2000 <= normalized_box(b).y <= 8000,
        48 <= normalized_box(b).width <= 1600,
        20 <= normalized_box(b).height <= 1000,
        -1000 <= normalized_box(b).z_index <= 1000,
        normalized_box(b).locked == b.locked,
        (-2000 <= b.x <= 8000 && -2000 <= b.y <= 8000 && 48 <= b.width <= 1600 && 20 <= b.height <= 1000
            && -1000 <= b.z_index <= 1000) ==> normalized_box(b) == b,
{
}


/// Snapping to another widget along one axis moves the widget by at most
/// the snap distance, and only to line one of its edges up with one of the
/// other widget's edges: its start with the other's start or end, or its
/// end with the other's start or end, tried in that order; out of reach of
/// all four it stays where it is.
pub proof fn lemma_snap_axis_aligns_edges(pos: int, size: int, o_pos: int, o_size: int, d: int)
    ensures
        ({
            let r = snap_axis(pos, size, o_pos, o_size, d);
            let o_end = o_pos + o_size;
            &&& abs(r - pos) <= d || r == pos
            &&& (abs(pos - o_pos) <= d ==> r == o_pos)
            &&& (abs(pos - o_pos) > d && abs(pos - o_end) <= d ==> r == o_end)
            &&& (abs(pos - o_pos) > d && abs(pos - o_end) > d && abs(pos + size - o_pos) <= d ==> r + size == o_pos)
            &&& (abs(pos - o_pos) > d && abs(pos - o_end) > d && abs(pos + size - o_pos) > d
                && abs(pos + size - o_end) <= d ==> r + size == o_end)
            &&& (abs(pos - o_pos) > d && abs(pos - o_end) > d && abs(pos + size - o_pos) > d
                && abs(pos + size - o_end) > d ==> r == pos)
        }),
{
}


/// A widget's area holds its edges: its corners are hit, a point one pixel
/// outside any side is not, and a locked widget is never picked.
pub proof fn lemma_area_holds_its_edges(a: Area, areas: Seq<Area>, locked: Seq<bool>, k: int, x: int, y: int)
    requires
        a.width >= 0,
        a.height >= 0,
    ensures
        area_contains(a, a.x as int, a.y as int),
        area_contains(a, a.x + a.width, a.y + a.height),
        !area_contains(a, a.x - 1, y),
        !area_contains(a, a.x + a.width + 1, y),
        !area_contains(a, x, a.y - 1),
        !area_contains(a, x, a.y + a.height + 1),
        0 <= k < locked.len() && locked[k] ==> !pickable(areas, locked, k, x, y),
{
}

} // verus!
