use hashoverlay::hotkeys::{normalize_hotkey, parse_hotkey};

#[test]
fn host_hotkeys_read_modifiers_and_function_keys() {
    assert_eq!(parse_hotkey("Ctrl+Shift+F9"), Some((2 | 4, 0x78)));
    assert_eq!(parse_hotkey(" alt + f10 "), Some((1, 0x79)));
    assert_eq!(parse_hotkey("F1"), Some((0, 0x70)));
    assert_eq!(parse_hotkey("F12"), Some((0, 0x7B)));
}

#[test]
fn host_hotkeys_reject_unknown_pieces_and_missing_keys() {
    assert_eq!(parse_hotkey("Ctrl+K"), None);
    assert_eq!(parse_hotkey("Ctrl+Shift"), None);
    assert_eq!(parse_hotkey("F13"), None);
    assert_eq!(parse_hotkey(""), None);
}

#[test]
fn host_hotkeys_allow_repeats_and_keep_the_last_key() {
    assert_eq!(parse_hotkey("Ctrl+Control+F2"), Some((2, 0x71)));
    assert_eq!(parse_hotkey("F2+F3"), Some((0, 0x72)));
}

#[test]
fn bindings_have_one_canonical_form() {
    assert_eq!(normalize_hotkey(" shift + ctrl + f09 ").as_deref(), Some("CTRL+SHIFT+F9"));
    assert_eq!(normalize_hotkey("Alt+Ctrl+Shift+F1").as_deref(), Some("ALT+CTRL+SHIFT+F1"));
    assert_eq!(normalize_hotkey("control+F10").as_deref(), Some("CTRL+F10"));
}

#[test]
fn invalid_bindings_have_no_canonical_form() {
    assert_eq!(normalize_hotkey("Ctrl+Ctrl+F9"), None);
    assert_eq!(normalize_hotkey("F9+F10"), None);
    assert_eq!(normalize_hotkey("Ctrl+K"), None);
    assert_eq!(normalize_hotkey("F0"), None);
    assert_eq!(normalize_hotkey("Shift"), None);
}

#[test]
fn canonical_hotkeys_normalize_to_themselves() {
    for raw in ["Shift+Ctrl+F9", " f09 ", "alt+control+shift+f12", "\u{3000}F10"] {
        let canonical = normalize_hotkey(raw).unwrap();
        assert_eq!(normalize_hotkey(&canonical), Some(canonical.clone()));
    }
    assert_eq!(normalize_hotkey("Shift+Ctrl+F9").as_deref(), Some("CTRL+SHIFT+F9"));
    assert_eq!(normalize_hotkey("\u{3000}F10").as_deref(), Some("F10"));
}
