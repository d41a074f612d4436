use hashoverlay::overlay_text::{
    gear_suffix, hotkey, relative_lap_gap, semantic_flag, snap_i32, standings_lap_gap, virtual_key, Area,
    MOD_ALT, MOD_CONTROL, MOD_SHIFT,
};

#[test]
fn formats_standings_lap_gaps_without_double_signs() {
    assert_eq!(standings_lap_gap(Some(-1)).as_deref(), Some("-1L"));
    assert_eq!(standings_lap_gap(Some(2)).as_deref(), Some("+2L"));
}

#[test]
fn parses_hotkey_modifiers() {
    assert_eq!(hotkey("Ctrl+Shift+F9"), Some((MOD_CONTROL | MOD_SHIFT, 0x78)));
    assert_eq!(hotkey("Alt+F10"), Some((MOD_ALT, 0x79)));
    assert_eq!(hotkey("Nope"), None);
}

#[test]
fn standings_gap_is_absent_on_the_leaders_lap() {
    assert_eq!(standings_lap_gap(Some(0)), None);
    assert_eq!(standings_lap_gap(None), None);
    assert_eq!(standings_lap_gap(Some(-12)).as_deref(), Some("-12L"));
}

#[test]
fn relative_gap_counts_laps_between_cars() {
    assert_eq!(relative_lap_gap(5, 5), None);
    assert_eq!(relative_lap_gap(7, 5).as_deref(), Some("+2L"));
    assert_eq!(relative_lap_gap(4, 5).as_deref(), Some("-1L"));
}

#[test]
fn gear_suffixes_follow_ordinals() {
    assert_eq!(gear_suffix(1), "ST");
    assert_eq!(gear_suffix(2), "ND");
    assert_eq!(gear_suffix(3), "RD");
    assert_eq!(gear_suffix(4), "TH");
}

#[test]
fn virtual_keys_cover_function_keys_only() {
    assert_eq!(virtual_key("F1"), Some(0x70));
    assert_eq!(virtual_key(" f12 "), Some(0x7B));
    assert_eq!(virtual_key("F13"), None);
    assert_eq!(virtual_key("K"), None);
}

#[test]
fn hotkey_keeps_the_last_key_piece() {
    assert_eq!(hotkey("F9+Win"), None);
    assert_eq!(hotkey("Win+F9"), Some((0, 0x78)));
    assert_eq!(hotkey("F9"), Some((0, 0x78)));
}

#[test]
fn snapping_rounds_to_the_nearest_grid_line() {
    assert_eq!(snap_i32(14, 10), 10);
    assert_eq!(snap_i32(15, 10), 20);
    assert_eq!(snap_i32(-14, 10), -10);
    assert_eq!(snap_i32(7, 1), 7);
}

#[test]
fn area_contains_its_inside_only() {
    let area = Area { x: 10, y: 20, width: 30, height: 40 };
    assert_eq!(area.right(), 40);
    assert_eq!(area.bottom(), 60);
    assert!(area.contains(10, 20));
    assert!(area.contains(40, 60));
    assert!(!area.contains(41, 20));
    assert!(!area.contains(9, 30));
}

#[test]
fn semantic_flags_name_the_game_codes() {
    assert_eq!(semantic_flag(2), "FLAG YELLOW");
    assert_eq!(semantic_flag(6), "FLAG BLUE");
    assert_eq!(semantic_flag(9), "FLAG UNKNOWN (9)");
}
