use hashoverlay::config::{CoachingChoices, StyleNumbers, WidgetStyleNumbers};
use hashoverlay::edit_layout::{
    drag_to, frame_hit, hit_index, normalize_box, snap_to_areas, snap_to_edges, snap_to_grid, stacking_order,
    start_drag, FrameHit, LayoutBox, SnapSettings,
};
use hashoverlay::overlay_text::Area;

fn layout(x: i32, y: i32, width: i32, height: i32) -> LayoutBox {
    LayoutBox { x, y, width, height, locked: false, z_index: 0 }
}

#[test]
fn boxes_are_clamped_into_range() {
    let mut b = LayoutBox { x: -5000, y: 9000, width: 10, height: 5000, locked: true, z_index: 4000 };
    normalize_box(&mut b);
    assert_eq!(b, LayoutBox { x: -2000, y: 8000, width: 48, height: 1000, locked: true, z_index: 1000 });
}

#[test]
fn widgets_snap_to_window_edges() {
    let mut b = layout(7, 300, 100, 50);
    snap_to_edges(&mut b, 420, 360, 12);
    assert_eq!((b.x, b.y), (0, 310));
    let mut far = layout(200, 100, 100, 50);
    snap_to_edges(&mut far, 420, 360, 12);
    assert_eq!((far.x, far.y), (200, 100));
    let mut off = layout(5, 5, 100, 50);
    snap_to_edges(&mut off, 420, 360, 0);
    assert_eq!((off.x, off.y), (5, 5));
}

#[test]
fn widgets_snap_to_the_grid() {
    let mut b = layout(14, 26, 131, 12);
    snap_to_grid(&mut b, 10);
    assert_eq!((b.x, b.y, b.width, b.height), (10, 30, 130, 20));
    let mut odd = layout(14, 26, 131, 52);
    snap_to_grid(&mut odd, 7);
    assert_eq!((odd.x, odd.y), (10, 30));
    let mut coarse = layout(14, 26, 131, 52);
    snap_to_grid(&mut coarse, 20);
    assert_eq!((coarse.x, coarse.y, coarse.width, coarse.height), (20, 20, 140, 60));
}

#[test]
fn widgets_snap_to_each_other() {
    let others = vec![Area { x: 100, y: 100, width: 50, height: 40 }];
    let mut b = layout(155, 143, 60, 30);
    snap_to_areas(&mut b, 60, 30, &others, 8);
    assert_eq!((b.x, b.y), (150, 140));
    let mut above = layout(30, 65, 60, 30);
    snap_to_areas(&mut above, 60, 30, &others, 8);
    assert_eq!((above.x, above.y), (30, 70));
}

#[test]
fn stacking_follows_z_index_then_list_order() {
    assert_eq!(stacking_order(&vec![30, 10, 20, 10]), vec![1, 3, 2, 0]);
    assert_eq!(stacking_order(&Vec::new()), Vec::<usize>::new());
}

#[test]
fn the_top_most_unlocked_widget_is_hit() {
    let areas = vec![Area { x: 0, y: 0, width: 100, height: 100 }, Area { x: 50, y: 50, width: 100, height: 100 }];
    assert_eq!(hit_index(&areas, &vec![false, false], false, 60, 60), Some(1));
    assert_eq!(hit_index(&areas, &vec![false, true], false, 60, 60), Some(0));
    assert_eq!(hit_index(&areas, &vec![false, false], false, 300, 300), None);
    assert_eq!(hit_index(&areas, &vec![false, false], true, 60, 60), None);
}

#[test]
fn window_edges_resize_and_elsewhere_drags() {
    assert_eq!(frame_hit(true, 400, 300, 399, 299), FrameHit::Client);
    assert_eq!(frame_hit(false, 400, 300, 390, 290), FrameHit::BottomRight);
    assert_eq!(frame_hit(false, 400, 300, 390, 10), FrameHit::Right);
    assert_eq!(frame_hit(false, 400, 300, 10, 290), FrameHit::Bottom);
    assert_eq!(frame_hit(false, 400, 300, 10, 10), FrameHit::Caption);
}

#[test]
fn dragging_moves_or_resizes() {
    let area = Area { x: 10, y: 10, width: 100, height: 50 };
    let settings = SnapSettings { snap_to_edges: false, snap_to_grid: false, grid_size: 10, snap_distance: 12 };

    let drag = start_drag(3, area, 20, 20);
    assert!(!drag.resize);
    let mut b = layout(10, 10, 100, 50);
    drag_to(drag, 45, 60, &mut b, 420, 230, settings);
    assert_eq!((b.x, b.y, b.width, b.height), (35, 50, 100, 50));

    let corner = start_drag(3, area, 105, 55);
    assert!(corner.resize);
    let mut r = layout(10, 10, 100, 50);
    drag_to(corner, 505, 75, &mut r, 420, 230, settings);
    assert_eq!((r.width, r.height), (420, 70));
}

#[test]
fn style_numbers_are_clamped() {
    let mut style = StyleNumbers { opacity: 3, line_thickness: 0, border_radius: 99, font_size: 50, font_weight: 50, large_number_size: 20 };
    style.normalize();
    assert_eq!(style, StyleNumbers { opacity: 32, line_thickness: 1, border_radius: 32, font_size: 36, font_weight: 100, large_number_size: 20 });
    let mut widget = WidgetStyleNumbers { border_width: -1, border_radius: 40, padding: 12 };
    widget.normalize();
    assert_eq!(widget, WidgetStyleNumbers { border_width: 0, border_radius: 32, padding: 12 });
}

#[test]
fn coaching_off_switches_every_hint_off() {
    let mut off = CoachingChoices {
        mode: "off".to_string(),
        brake_timing: true,
        throttle_timing: true,
        input_match: true,
        speed: true,
        gear: true,
        max_hints: 9,
    };
    off.normalize();
    assert!(!off.brake_timing && !off.throttle_timing && !off.input_match && !off.speed && !off.gear);
    assert_eq!(off.max_hints, 6);
    let mut unknown = CoachingChoices { mode: "turbo".to_string(), max_hints: 0, ..off.clone() };
    unknown.brake_timing = true;
    unknown.normalize();
    assert_eq!(unknown.mode, "practice");
    assert_eq!(unknown.max_hints, 1);
    assert!(unknown.brake_timing);
}
