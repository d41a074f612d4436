use hashoverlay::config::{normalize_overlay_layers, ConfigError, OverlayLayerConfig};
use hashoverlay::host::{
    action_for_hotkey, apply_hotkey, command_reply, decode_message, host_reports_running, reference_lap_key,
    surfaces_to_open, HostAction, OverlayToggles,
};
use hashoverlay::lap_store::ReferenceLapKey;
use hashoverlay::telemetry::TelemetryMetadata;

#[test]
fn builds_reference_lap_key_from_telemetry_metadata() {
    let metadata = TelemetryMetadata {
        track_name: Some("Sebring".to_string()),
        track_layout: Some("International".to_string()),
        vehicle_name: Some("Porsche 963".to_string()),
        vehicle_class: Some("Hypercar".to_string()),
        ..TelemetryMetadata::default()
    };

    assert_eq!(
        reference_lap_key(&metadata),
        ReferenceLapKey {
            track: "Sebring".to_string(),
            track_layout: "International".to_string(),
            car: "Porsche 963".to_string(),
            legacy_vehicle_class: Some("Hypercar".to_string()),
        }
    );
}

#[test]
fn unknown_metadata_gives_the_fallback_names() {
    let key = reference_lap_key(&TelemetryMetadata::default());
    assert_eq!(key.track, "unknown-track");
    assert_eq!(key.track_layout, "");
    assert_eq!(key.car, "unknown-car");
    assert_eq!(key.legacy_vehicle_class, None);
}

#[test]
fn host_selects_only_enabled_surfaces_and_rejects_unknown_debug_layers() {
    let mut layers = vec![
        OverlayLayerConfig { id: "main".to_string(), enabled: true, ..OverlayLayerConfig::default() },
        OverlayLayerConfig { id: "race".to_string(), enabled: false, ..OverlayLayerConfig::default() },
    ];
    normalize_overlay_layers(&mut layers);

    let surfaces = surfaces_to_open(&layers, None).unwrap();
    assert_eq!(surfaces.len(), 1);
    assert_eq!(layers[surfaces[0]].id, "main");
    assert!(surfaces_to_open(&layers, Some("missing")).is_err());
    assert_eq!(surfaces_to_open(&layers, Some("race")).unwrap(), vec![1]);
    assert!(matches!(
        surfaces_to_open(&layers, Some("missing")),
        Err(ConfigError::UnknownOverlayLayer(id)) if id == "missing"
    ));
}

#[test]
fn hotkey_ids_map_to_actions() {
    assert_eq!(action_for_hotkey(1), Some(HostAction::ToggleVisibility));
    assert_eq!(action_for_hotkey(2), Some(HostAction::ToggleEditMode));
    assert_eq!(action_for_hotkey(3), Some(HostAction::ToggleCoaching));
    assert_eq!(action_for_hotkey(4), Some(HostAction::CyclePreset));
    assert_eq!(action_for_hotkey(5), None);
}

#[test]
fn control_commands_get_their_replies() {
    assert_eq!(command_reply(Some("status")), ("running", false));
    assert_eq!(command_reply(Some("shutdown")), ("stopping", true));
    assert_eq!(command_reply(Some("hide")), ("unsupported", false));
    assert_eq!(command_reply(Some("dance")), ("invalid", false));
    assert_eq!(command_reply(None), ("invalid", false));
}

#[test]
fn pipe_messages_are_decoded_and_trimmed() {
    assert_eq!(decode_message(b"  stop\r\n"), "stop");
    assert_eq!(decode_message(b""), "");
    assert!(host_reports_running("running"));
    assert!(!host_reports_running(" running"));
}

#[test]
fn hotkeys_flip_the_overlay_switches() {
    let mut t = OverlayToggles { visible: true, edit_mode: false, coaching: true };

    let e = apply_hotkey(&mut t, HostAction::ToggleVisibility);
    assert_eq!(e.show_window, Some(false));
    assert!(!t.visible);

    let e = apply_hotkey(&mut t, HostAction::ToggleEditMode);
    assert_eq!(e.show_window, Some(true));
    assert_eq!(e.click_through, Some(false));
    assert!(t.visible && t.edit_mode);

    let e = apply_hotkey(&mut t, HostAction::ToggleCoaching);
    assert_eq!(e.coaching_mode, Some("off"));
    assert!(e.save_config && e.repaint && !t.coaching);

    let e = apply_hotkey(&mut t, HostAction::CyclePreset);
    assert!(e.cycle_preset && e.save_config);
    assert_eq!(t, OverlayToggles { visible: true, edit_mode: true, coaching: false });
}
