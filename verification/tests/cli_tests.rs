use hashoverlay::cli::Cli;

#[test]
fn parses_default_cli() {
    let cli = Cli::parse(Vec::new());

    assert!(!cli.once);
    assert!(!cli.overlay);
    assert!(!cli.configure);
    assert!(!cli.print_config_path);
    assert!(cli.config_path.is_none());
    assert!(!cli.wait);
    assert_eq!(cli.interval_ms, 100);
}

#[test]
fn parses_cli_flags() {
    let cli = Cli::parse(vec![
        "--once".to_string(),
        "--wait".to_string(),
        "--overlay".to_string(),
        "--configure".to_string(),
        "--print-config-path".to_string(),
        "--config".to_string(),
        "custom.toml".to_string(),
        "--interval-ms".to_string(),
        "25".to_string(),
    ]);

    assert!(cli.once);
    assert!(cli.wait);
    assert!(cli.overlay);
    assert!(cli.configure);
    assert!(cli.print_config_path);
    assert_eq!(cli.config_path.as_deref(), Some("custom.toml"));
    assert_eq!(cli.interval_ms, 25);
}

#[test]
fn help_stops_reading_arguments() {
    let cli = Cli::parse(vec!["--once".to_string(), "-h".to_string(), "--wait".to_string()]);
    assert!(cli.help);
    assert!(cli.once);
    assert!(!cli.wait);
}

#[test]
fn interval_is_at_least_one_millisecond_and_bad_values_are_ignored() {
    assert_eq!(Cli::parse(vec!["--interval-ms".to_string(), "0".to_string()]).interval_ms, 1);
    assert_eq!(Cli::parse(vec!["--interval-ms".to_string(), "fast".to_string()]).interval_ms, 100);
    assert_eq!(Cli::parse(vec!["--interval-ms".to_string()]).interval_ms, 100);
}

#[test]
fn overlay_layer_takes_the_next_argument() {
    let cli = Cli::parse(vec!["--overlay-layer".to_string(), "coach".to_string(), "--bogus".to_string()]);
    assert_eq!(cli.overlay_layer.as_deref(), Some("coach"));
    assert_eq!(Cli::parse(vec!["--overlay-layer".to_string()]).overlay_layer, None);
}
