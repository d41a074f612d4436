use hashoverlay::config::{extra_widget_box, next_preset, PresetFingerprint, PresetSlot, SavedPresets, WidgetConfig};
use hashoverlay::edit_layout::SnapSettings;
use hashoverlay::presets::{
    arrange_surfaces, default_surface_box, place_extra_widgets, preset_profile, surface_by_id, Surface,
};

#[test]
fn shipped_presets_enable_their_real_widget_sets() {
    let race = preset_profile(PresetSlot::Race);
    assert!(race.extra_widgets.contains(&"relative"));
    assert!(race.extra_widgets.contains(&"standings"));
    assert!(race.extra_widgets.contains(&"fuel"));
    assert!(preset_profile(PresetSlot::Endurance).extra_widgets.contains(&"energy"));
    assert!(preset_profile(PresetSlot::Practice).extra_widgets.contains(&"tyres"));
    assert!(!preset_profile(PresetSlot::Minimal).extra_widgets.contains(&"relative"));
}

fn shipped_fingerprint(slot: PresetSlot) -> PresetFingerprint {
    let profile = preset_profile(slot);
    PresetFingerprint {
        performance_mode: profile.performance_mode.to_string(),
        reference_mode: profile.reference_mode.to_string(),
        mini_sectors: profile.mini_sectors,
        widgets: profile.widgets,
    }
}

fn shipped_presets() -> SavedPresets {
    SavedPresets {
        practice: shipped_fingerprint(PresetSlot::Practice),
        qualifying: shipped_fingerprint(PresetSlot::Qualifying),
        race: shipped_fingerprint(PresetSlot::Race),
        endurance: shipped_fingerprint(PresetSlot::Endurance),
        minimal: shipped_fingerprint(PresetSlot::Minimal),
    }
}

fn running(performance_mode: &str, reference_mode: &str) -> PresetFingerprint {
    PresetFingerprint {
        performance_mode: performance_mode.to_string(),
        reference_mode: reference_mode.to_string(),
        mini_sectors: 40,
        widgets: WidgetConfig::default(),
    }
}

#[test]
fn cycling_a_preset_updates_the_complete_runtime_profile() {
    let next = next_preset(&running("normal", "last_lap"), &shipped_presets());
    assert_eq!(next, PresetSlot::Qualifying);
    let profile = preset_profile(next);
    assert_eq!(profile.performance_mode, "high_refresh");
    assert_eq!(profile.reference_mode, "personal_best");
    assert_eq!(profile.mini_sectors, 60);
    assert!(!profile.widgets.performance_monitor);
}

#[test]
fn preset_cycle_order() {
    let saved = shipped_presets();
    let mut slot = PresetSlot::Practice;
    let mut seen = Vec::new();
    for _ in 0..5 {
        slot = next_preset(&shipped_fingerprint(slot), &saved);
        seen.push(slot);
    }
    assert_eq!(
        seen,
        vec![PresetSlot::Qualifying, PresetSlot::Race, PresetSlot::Endurance, PresetSlot::Minimal, PresetSlot::Practice]
    );
}

#[test]
fn preset_hotkey_falls_back_to_the_modes_when_widgets_were_changed() {
    let saved = shipped_presets();
    let mut endurance = shipped_fingerprint(PresetSlot::Endurance);
    endurance.widgets.title = true;
    assert_eq!(next_preset(&endurance, &saved), PresetSlot::Endurance);
    assert_eq!(next_preset(&running("high_refresh", "personal_best"), &saved), PresetSlot::Race);
    assert_eq!(next_preset(&running("eco", "last_lap"), &saved), PresetSlot::Minimal);
    assert_eq!(next_preset(&running("normal", "session_best"), &saved), PresetSlot::Practice);
}

#[test]
fn preset_layouts_keep_enabled_widgets_apart() {
    let profile = preset_profile(PresetSlot::Race);
    let arrangement = arrange_surfaces(&profile.widgets, "practice");
    let ids: Vec<String> = profile.extra_widgets.iter().map(|id| id.to_string()).collect();
    let extras = place_extra_widgets(&ids, arrangement.next_y, arrangement.next_z);
    let mut areas: Vec<(i32, i32, i32, i32)> =
        arrangement.placed.iter().map(|(_, p)| (p.x, p.y, p.width, p.height)).collect();
    areas.extend(extras.iter().map(|p| (p.x, p.y, p.width, p.height)));
    for (i, a) in areas.iter().enumerate() {
        for b in areas.iter().skip(i + 1) {
            let apart = a.0 + a.2 <= b.0 || b.0 + b.2 <= a.0 || a.1 + a.3 <= b.1 || b.1 + b.3 <= a.1;
            assert!(apart, "{a:?} overlaps {b:?}");
        }
    }
}

#[test]
fn disabled_catalog_widgets_start_in_a_grid() {
    let first = extra_widget_box(0);
    assert_eq!((first.x, first.y, first.width, first.height, first.z_index), (16, 16, 132, 52, 100));
    let fifth = extra_widget_box(4);
    assert_eq!((fifth.x, fifth.y, fifth.z_index), (158, 78, 104));
    assert!(!fifth.locked);
    let _ = WidgetConfig::default();
}

#[test]
fn default_layout_places_every_surface_apart() {
    let all = [
        Surface::Telemetry,
        Surface::Inputs,
        Surface::LapTiming,
        Surface::Timing,
        Surface::Sectors,
        Surface::MiniSectors,
        Surface::Coaching,
        Surface::Performance,
    ];
    let telemetry = default_surface_box(Surface::Telemetry);
    assert_eq!((telemetry.x, telemetry.y, telemetry.width, telemetry.height, telemetry.z_index), (14, 10, 392, 52, 10));
    let performance = default_surface_box(Surface::Performance);
    assert_eq!((performance.x, performance.y, performance.width, performance.height, performance.z_index), (14, 278, 392, 20, 80));
    for (i, a) in all.iter().enumerate() {
        for b in all.iter().skip(i + 1) {
            let (p, q) = (default_surface_box(*a), default_surface_box(*b));
            let apart = p.x + p.width <= q.x || q.x + q.width <= p.x || p.y + p.height <= q.y || q.y + q.height <= p.y;
            assert!(apart, "{a:?} overlaps {b:?}");
        }
    }
    let snap = SnapSettings::default();
    assert!(snap.snap_to_edges && !snap.snap_to_grid);
    assert_eq!((snap.grid_size, snap.snap_distance), (10, 12));
}

#[test]
fn layout_overrides_name_surfaces_by_id() {
    assert_eq!(surface_by_id("mini_sectors"), Some(Surface::MiniSectors));
    assert_eq!(surface_by_id("performance"), Some(Surface::Performance));
    assert_eq!(surface_by_id("relative"), None);
}
