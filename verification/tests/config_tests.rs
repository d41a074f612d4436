use hashoverlay::config::{
    check_revision, find_overlay_layer, normalize_overlay_layers, parse_color, plan_load, validate_for_save,
    ConfigError, HotkeyConfig, OverlayLayerConfig, SchemaFields, UnitsConfig, CURRENT_CONFIG_VERSION,
};
use hashoverlay::platform::OverlayError;

#[test]
fn parses_web_hex_color_to_gdi_colorref() {
    assert_eq!(parse_color("#112233", 0), 0x00332211);
    assert_eq!(parse_color("bad", 0x00ffffff), 0x00ffffff);
}

#[test]
fn migrates_v3_configs_to_explicit_display_units() {
    let mut fields = SchemaFields {
        config_version: 3,
        hotkeys: HotkeyConfig::default(),
        units: UnitsConfig {
            speed: "mph".to_string(),
            temperature: String::new(),
            pressure: String::new(),
            fuel: String::new(),
        },
    };

    fields.migrate(3);
    fields.units.normalize();

    assert_eq!(fields.config_version, CURRENT_CONFIG_VERSION);
    assert_eq!(fields.units.speed, "mph");
    assert_eq!(fields.units.temperature, "celsius");
    assert_eq!(fields.units.pressure, "kpa");
    assert_eq!(fields.units.fuel, "liters");
}

#[test]
fn historical_migrations_advance_one_schema_version_at_a_time() {
    let mut fields = SchemaFields { config_version: 5, hotkeys: HotkeyConfig::default(), units: UnitsConfig::default() };

    fields.migrate_v5_to_v6();

    assert_eq!(fields.config_version, 6);
    fields.migrate_v6_to_v7();
    assert_eq!(fields.config_version, CURRENT_CONFIG_VERSION);
}

#[test]
fn rejects_unknown_explicit_overlay_layer() {
    let mut layers: Vec<OverlayLayerConfig> = Vec::new();
    normalize_overlay_layers(&mut layers);

    assert!(matches!(
        find_overlay_layer(&layers, "typo"),
        Err(ConfigError::UnknownOverlayLayer(id)) if id == "typo"
    ));
    assert_eq!(find_overlay_layer(&layers, "main").unwrap(), 0);
}

#[test]
fn rejects_invalid_or_duplicate_hotkeys_before_saving() {
    let mut invalid = HotkeyConfig::default();
    invalid.toggle_overlay = "Ctrl+K".to_string();
    assert!(matches!(
        validate_for_save(CURRENT_CONFIG_VERSION, &invalid),
        Err(ConfigError::InvalidHotkey { field: "toggle_overlay", .. })
    ));

    let mut duplicate = HotkeyConfig::default();
    duplicate.edit_mode = " f09 ".to_string();
    assert!(matches!(
        validate_for_save(CURRENT_CONFIG_VERSION, &duplicate),
        Err(ConfigError::DuplicateHotkey { first_field: "toggle_overlay", second_field: "edit_mode", .. })
    ));
}

#[test]
fn future_versions_are_rejected_before_hotkeys() {
    assert!(matches!(
        validate_for_save(999, &HotkeyConfig::default()),
        Err(ConfigError::UnsupportedVersion { found: 999, supported: CURRENT_CONFIG_VERSION })
    ));
    assert!(validate_for_save(CURRENT_CONFIG_VERSION, &HotkeyConfig::default()).is_ok());
    assert!(matches!(plan_load(999, true), Err(ConfigError::UnsupportedVersion { found: 999, .. })));
}

#[test]
fn stale_revisions_conflict() {
    assert!(check_revision(5, 5).is_ok());
    assert!(matches!(check_revision(5, 6), Err(ConfigError::Conflict { expected: 5, actual: 6 })));
}

#[test]
fn error_messages_name_the_offending_values() {
    assert_eq!(
        ConfigError::Conflict { expected: 1, actual: 22 }.text(),
        "overlay config changed while editing (expected revision 1, found 22)"
    );
    assert_eq!(
        ConfigError::UnsupportedVersion { found: 999, supported: 7 }.text(),
        "overlay config version 999 is newer than supported version 7"
    );
    assert_eq!(ConfigError::UnknownOverlayLayer("typo".to_string()).text(), "overlay layer 'typo' does not exist");
    assert_eq!(
        ConfigError::DuplicateHotkey { first_field: "a", second_field: "b", binding: "F9".to_string() }.text(),
        "hotkey 'F9' is assigned to both 'a' and 'b'"
    );
    let io = ConfigError::Io(std::io::Error::new(std::io::ErrorKind::Other, "disk gone"));
    assert_eq!(io.text(), "could not read overlay config: disk gone");
    assert_eq!(
        OverlayError::from(ConfigError::UnknownOverlayLayer("x".to_string())).text(),
        "overlay layer 'x' does not exist"
    );
    assert_eq!(OverlayError::WindowCreationFailed.text(), "could not create the telemetry overlay window");
}

#[test]
fn generated_surface_ids_skip_ids_already_taken() {
    let mut layers = vec![
        OverlayLayerConfig { id: "overlay-2".to_string(), ..OverlayLayerConfig::default() },
        OverlayLayerConfig { id: "".to_string(), ..OverlayLayerConfig::default() },
    ];
    normalize_overlay_layers(&mut layers);
    assert_eq!(layers[0].id, "overlay-2");
    assert_eq!(layers[1].id, "overlay-3");
    assert_eq!(find_overlay_layer(&layers, "overlay-3").unwrap(), 1);
}

#[test]
fn repeated_and_padded_surface_ids_become_distinct_lowercase_ids() {
    let mut layers = vec![
        OverlayLayerConfig { id: " Race ".to_string(), ..OverlayLayerConfig::default() },
        OverlayLayerConfig { id: "race".to_string(), ..OverlayLayerConfig::default() },
        OverlayLayerConfig { id: "overlay-2".to_string(), ..OverlayLayerConfig::default() },
        OverlayLayerConfig { id: "\u{3000}".to_string(), ..OverlayLayerConfig::default() },
    ];
    normalize_overlay_layers(&mut layers);
    let ids: Vec<&str> = layers.iter().map(|layer| layer.id.as_str()).collect();
    assert_eq!(ids, vec!["race", "overlay-2", "overlay-3", "overlay-4"]);
}
