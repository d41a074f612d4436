//! The overlay configuration rules: defaults, the repair of out-of-range
//! values, hotkey validation, schema versions and migrations, overlay
//! surfaces and built-in presets.

use vstd::prelude::*;
use std::hash::{Hash, Hasher};
use crate::hotkeys::{self, normalize_hotkey};
use crate::text::{self, chars_of, parse_hex_u32, str_eq, trim_bounds, string_from_chars};

verus! {

/// The configuration schema version this library reads and writes.
pub const CURRENT_CONFIG_VERSION: u32 = 7;

/// Why a configuration was rejected.
#[derive(Debug)]
pub enum ConfigError {
    Io(std::io::Error),
    Toml(toml::de::Error),
    TomlSer(toml::ser::Error),
    Conflict { expected: u64, actual: u64 },
    UnsupportedVersion { found: u32, supported: u32 },
    UnknownOverlayLayer(String),
    InvalidHotkey { field: &'static str, binding: String },
    DuplicateHotkey { first_field: &'static str, second_field: &'static str, binding: String },
}

#[verifier::external_type_specification]
#[verifier::external_body]
pub struct ExTomlDeError(toml::de::Error);

#[verifier::external_type_specification]
#[verifier::external_body]
pub struct ExTomlSerError(toml::ser::Error);

/// The text that `Display` gives an I/O error (std's `<io::Error as Display>::fmt`).
/// It comes from the operating system, so nothing is stated of it.
#[verifier::external_body]
fn io_error_text(error: &std::io::Error) -> String {
    format!("{error}")
}

/// The text that `Display` gives a TOML parse error (`<toml::de::Error as Display>::fmt`).
/// The error is opaque here, so nothing is stated of it.
#[verifier::external_body]
fn toml_de_error_text(error: &toml::de::Error) -> String {
    format!("{error}")
}

/// The text that `Display` gives a TOML write error (`<toml::ser::Error as Display>::fmt`).
/// The error is opaque here, so nothing is stated of it.
#[verifier::external_body]
fn toml_ser_error_text(error: &toml::ser::Error) -> String {
    format!("{error}")
}

/// The message of each error that the library's own rules raise; the
/// errors that carry an outside error have only a fixed start.
pub open spec fn config_error_text_spec(error: ConfigError) -> Seq<char> {
    match error {
        ConfigError::Io(_) => "could not read overlay config: "@,
        ConfigError::Toml(_) => "overlay config has invalid TOML: "@,
        ConfigError::TomlSer(_) => "could not write overlay config: "@,
        ConfigError::Conflict { expected, actual } =>
            "overlay config changed while editing (expected revision "@ + text::decimal_digits(expected as nat)
                + ", found "@ + text::decimal_digits(actual as nat) + ")"@,
        ConfigError::UnsupportedVersion { found, supported } =>
            "overlay config version "@ + text::decimal_digits(found as nat)
                + " is newer than supported version "@ + text::decimal_digits(supported as nat),
        ConfigError::UnknownOverlayLayer(id) => "overlay layer '"@ + id@ + "' does not exist"@,
        ConfigError::InvalidHotkey { field, binding } =>
            "hotkey '"@ + field@ + "' must use F1 through F12 with optional Ctrl, Shift, or Alt modifiers (found '"@
                + binding@ + "')"@,
        ConfigError::DuplicateHotkey { first_field, second_field, binding } =>
            "hotkey '"@ + binding@ + "' is assigned to both '"@ + first_field@ + "' and '"@ + second_field@ + "'"@,
    }
}

/// Whether `error` carries an error of an outside crate.
pub open spec fn wraps_outside_error(error: ConfigError) -> bool {
    error is Io || error is Toml || error is TomlSer
}

impl ConfigError {
    /// The message shown for this error. For an error that wraps an outside
    /// one, the outside error's own text follows the fixed start.
    pub fn text(&self) -> (s: String)
        ensures
            !wraps_outside_error(*self) ==> s@ == config_error_text_spec(*self),
            wraps_outside_error(*self) ==> s@.len() >= config_error_text_spec(*self).len()
                && s@.subrange(0, config_error_text_spec(*self).len() as int) == config_error_text_spec(*self),
    {
        let mut s = String::new();
        match self {
            ConfigError::Io(error) => {
                text::push_str(&mut s, "could not read overlay config: ");
                let rest = io_error_text(error);
                text::push_str(&mut s, rest.as_str());
            },
            ConfigError::Toml(error) => {
                text::push_str(&mut s, "overlay config has invalid TOML: ");
                let rest = toml_de_error_text(error);
                text::push_str(&mut s, rest.as_str());
            },
            ConfigError::TomlSer(error) => {
                text::push_str(&mut s, "could not write overlay config: ");
                let rest = toml_ser_error_text(error);
                text::push_str(&mut s, rest.as_str());
            },
            ConfigError::Conflict { expected, actual } => {
                text::push_str(&mut s, "overlay config changed while editing (expected revision ");
                text::push_digits(&mut s, *expected);
                text::push_str(&mut s, ", found ");
                text::push_digits(&mut s, *actual);
                text::push_str(&mut s, ")");
            },
            ConfigError::UnsupportedVersion { found, supported } => {
                text::push_str(&mut s, "overlay config version ");
                text::push_digits(&mut s, *found as u64);
                text::push_str(&mut s, " is newer than supported version ");
                text::push_digits(&mut s, *supported as u64);
            },
            ConfigError::UnknownOverlayLayer(id) => {
                text::push_str(&mut s, "overlay layer '");
                text::push_str(&mut s, id.as_str());
                text::push_str(&mut s, "' does not exist");
            },
            ConfigError::InvalidHotkey { field, binding } => {
                text::push_str(&mut s, "hotkey '");
                text::push_str(&mut s, field);
                text::push_str(&mut s, "' must use F1 through F12 with optional Ctrl, Shift, or Alt modifiers (found '");
                text::push_str(&mut s, binding.as_str());
                text::push_str(&mut s, "')");
            },
            ConfigError::DuplicateHotkey { first_field, second_field, binding } => {
                text::push_str(&mut s, "hotkey '");
                text::push_str(&mut s, binding.as_str());
                text::push_str(&mut s, "' is assigned to both '");
                text::push_str(&mut s, first_field);
                text::push_str(&mut s, "' and '");
                text::push_str(&mut s, second_field);
                text::push_str(&mut s, "'");
            },
        }
        assert(!wraps_outside_error(*self) ==> s@ =~= config_error_text_spec(*self));
        assert(wraps_outside_error(*self) ==> s@.subrange(0, config_error_text_spec(*self).len() as int) =~= config_error_text_spec(*self));
        s
    }
}

pub open spec fn clamp(v: int, lo: int, hi: int) -> int {
    if v < lo { lo } else if v > hi { hi } else { v }
}

fn clamp_i32(v: i32, lo: i32, hi: i32) -> (r: i32)
    requires
        lo <= hi,
    ensures
        r == clamp(v as int, lo as int, hi as int),
{
    if v < lo { lo } else if v > hi { hi } else { v }
}

fn clamp_u64(v: u64, lo: u64, hi: u64) -> (r: u64)
    requires
        lo <= hi,
    ensures
        r == clamp(v as int, lo as int, hi as int),
{
    if v < lo { lo } else if v > hi { hi } else { v }
}

fn clamp_usize(v: usize, lo: usize, hi: usize) -> (r: usize)
    requires
        lo <= hi,
    ensures
        r == clamp(v as int, lo as int, hi as int),
{
    if v < lo { lo } else if v > hi { hi } else { v }
}

fn clamp_u8(v: u8, lo: u8, hi: u8) -> (r: u8)
    requires
        lo <= hi,
    ensures
        r == clamp(v as int, lo as int, hi as int),
{
    if v < lo { lo } else if v > hi { hi } else { v }
}

/// Position, size and update rates of one overlay window.
#[derive(Debug, Clone, Copy, PartialEq, Eq, Structural)]
pub struct WindowConfig {
    pub x: i32,
    pub y: i32,
    pub width: i32,
    pub height: i32,
    pub refresh_hz: u64,
    pub sample_ms: u64,
    pub history_samples: usize,
}

impl Default for WindowConfig {
    fn default() -> (w: Self)
        ensures
            w.x == 40 && w.y == 40 && w.width == 420 && w.height == 230,
            w.refresh_hz == 60 && w.sample_ms == 10 && w.history_samples == 180,
    {
        WindowConfig { x: 40, y: 40, width: 420, height: 230, refresh_hz: 60, sample_ms: 10, history_samples: 180 }
    }
}

/// A window's size and rates brought into their supported ranges.
pub open spec fn window_in_range(w: WindowConfig) -> bool {
    &&& 280 <= w.width <= 1200
    &&& 140 <= w.height <= 800
    &&& 15 <= w.refresh_hz <= 144
    &&& 5 <= w.sample_ms <= 250
}

/// The refresh rate and sample interval a named performance mode imposes.
pub open spec fn performance_rates(mode: Seq<char>) -> Option<(u64, u64)> {
    if mode == "eco"@ {
        Some((30u64, 20u64))
    } else if mode == "high_refresh"@ {
        Some((120u64, 10u64))
    } else if mode == "normal"@ {
        Some((60u64, 10u64))
    } else {
        None
    }
}

/// The performance mode a configuration names: `eco`, `normal` or
/// `high_refresh`.
pub open spec fn performance_mode_named(mode: Seq<char>) -> Option<crate::lap_engine::PerformanceMode> {
    if mode == "eco"@ {
        Some(crate::lap_engine::PerformanceMode::Eco)
    } else if mode == "normal"@ {
        Some(crate::lap_engine::PerformanceMode::Normal)
    } else if mode == "high_refresh"@ {
        Some(crate::lap_engine::PerformanceMode::HighRefresh)
    } else {
        None
    }
}

/// The repaired main window: size clamped, rates taken from the performance
/// mode when it names one, then clamped, and the history length clamped.
pub open spec fn normalized_window(w: WindowConfig, mode: Seq<char>) -> WindowConfig {
    let (refresh, sample) = match performance_rates(mode) {
        Some(rates) => rates,
        None => (w.refresh_hz, w.sample_ms),
    };
    WindowConfig {
        x: w.x,
        y: w.y,
        width: clamp(w.width as int, 280, 1200) as i32,
        height: clamp(w.height as int, 140, 800) as i32,
        refresh_hz: clamp(refresh as int, 15, 144) as u64,
        sample_ms: clamp(sample as int, 5, 250) as u64,
        history_samples: clamp(w.history_samples as int, 16, 900) as usize,
    }
}

/// Repairs the main window for the given performance mode.
pub fn normalize_window(window: &mut WindowConfig, performance_mode: &str)
    ensures
        *final(window) == normalized_window(*old(window), performance_mode@),
{
    window.width = clamp_i32(window.width, 280, 1200);
    window.height = clamp_i32(window.height, 140, 800);
    if str_eq(performance_mode, "eco") {
        window.refresh_hz = 30;
        window.sample_ms = 20;
    } else if str_eq(performance_mode, "high_refresh") {
        window.refresh_hz = 120;
        window.sample_ms = 10;
    } else if str_eq(performance_mode, "normal") {
        window.refresh_hz = 60;
        window.sample_ms = 10;
    }
    window.refresh_hz = clamp_u64(window.refresh_hz, 15, 144);
    window.sample_ms = clamp_u64(window.sample_ms, 5, 250);
    window.history_samples = clamp_usize(window.history_samples, 16, 900);
}

/// The window of an overlay surface: size and rates clamped, nothing else.
pub open spec fn normalized_layer_window(w: WindowConfig) -> WindowConfig {
    WindowConfig {
        width: clamp(w.width as int, 280, 1200) as i32,
        height: clamp(w.height as int, 140, 800) as i32,
        refresh_hz: clamp(w.refresh_hz as int, 15, 144) as u64,
        sample_ms: clamp(w.sample_ms as int, 5, 250) as u64,
        ..w
    }
}

pub fn normalize_layer_window(window: &mut WindowConfig)
    ensures
        *final(window) == normalized_layer_window(*old(window)),
{
    window.width = clamp_i32(window.width, 280, 1200);
    window.height = clamp_i32(window.height, 140, 800);
    window.refresh_hz = clamp_u64(window.refresh_hz, 15, 144);
    window.sample_ms = clamp_u64(window.sample_ms, 5, 250);
}

/// Display units for speed, temperature, pressure and fuel.
#[derive(Debug, Clone, PartialEq, Eq)]
pub struct UnitsConfig {
    pub speed: String,
    pub temperature: String,
    pub pressure: String,
    pub fuel: String,
}

fn string_of_str(s: &str) -> (r: String)
    ensures
        r@ == s@,
{
    let mut r = String::new();
    text::push_str(&mut r, s);
    assert(r@ =~= s@);
    r
}

impl Default for UnitsConfig {
    fn default() -> (u: Self)
        ensures
            u.speed@ == "kmh"@,
            u.temperature@ == "celsius"@,
            u.pressure@ == "kpa"@,
            u.fuel@ == "liters"@,
    {
        UnitsConfig {
            speed: string_of_str("kmh"),
            temperature: string_of_str("celsius"),
            pressure: string_of_str("kpa"),
            fuel: string_of_str("liters"),
        }
    }
}

/// A unit kept when it is one of the two supported ones, else the default.
pub open spec fn unit_choice(v: Seq<char>, first: Seq<char>, second: Seq<char>) -> Seq<char> {
    if v == first || v == second { v } else { first }
}

impl UnitsConfig {
    /// Replaces every unsupported unit by its default (`kmh`, `celsius`,
    /// `kpa`, `liters`).
    pub fn normalize(&mut self)
        ensures
            final(self).speed@ == unit_choice(old(self).speed@, "kmh"@, "mph"@),
            final(self).temperature@ == unit_choice(old(self).temperature@, "celsius"@, "fahrenheit"@),
            final(self).pressure@ == unit_choice(old(self).pressure@, "kpa"@, "psi"@),
            final(self).fuel@ == unit_choice(old(self).fuel@, "liters"@, "gallons"@),
    {
        if !(str_eq(self.speed.as_str(), "kmh") || str_eq(self.speed.as_str(), "mph")) {
            self.speed = string_of_str("kmh");
        }
        if !(str_eq(self.temperature.as_str(), "celsius") || str_eq(self.temperature.as_str(), "fahrenheit")) {
            self.temperature = string_of_str("celsius");
        }
        if !(str_eq(self.pressure.as_str(), "kpa") || str_eq(self.pressure.as_str(), "psi")) {
            self.pressure = string_of_str("kpa");
        }
        if !(str_eq(self.fuel.as_str(), "liters") || str_eq(self.fuel.as_str(), "gallons")) {
            self.fuel = string_of_str("liters");
        }
    }
}

/// Which built-in widgets are shown.
#[derive(Debug, Clone, Copy, PartialEq, Eq, Structural)]
pub struct WidgetConfig {
    pub title: bool,
    pub speed_gear_rpm: bool,
    pub pedals: bool,
    pub steering: bool,
    pub lap_info: bool,
    pub lap_timing: bool,
    pub sectors: bool,
    pub mini_sector_widget: bool,
    pub input_history: bool,
    pub delta_timing: bool,
    pub ghost_inputs: bool,
    pub coaching: bool,
    pub performance_monitor: bool,
}

impl Default for WidgetConfig {
    fn default() -> (w: Self)
        ensures
            w == (WidgetConfig {
                title: true,
                speed_gear_rpm: true,
                pedals: true,
                steering: true,
                lap_info: true,
                lap_timing: true,
                sectors: true,
                mini_sector_widget: true,
                input_history: true,
                delta_timing: true,
                ghost_inputs: true,
                coaching: true,
                performance_monitor: false,
            }),
    {
        WidgetConfig {
            title: true,
            speed_gear_rpm: true,
            pedals: true,
            steering: true,
            lap_info: true,
            lap_timing: true,
            sectors: true,
            mini_sector_widget: true,
            input_history: true,
            delta_timing: true,
            ghost_inputs: true,
            coaching: true,
            performance_monitor: false,
        }
    }
}

/// Per-widget options of the catalog widgets.
#[derive(Debug, Clone, PartialEq, Eq)]
pub struct WidgetOptions {
    pub cars_ahead: u8,
    pub cars_behind: u8,
    pub rows: u8,
    pub same_class_only: bool,
    pub show_position: bool,
    pub show_laps: bool,
    pub show_driver: bool,
    pub show_car: bool,
    pub show_class: bool,
    pub show_gap: bool,
    pub show_pit: bool,
    pub show_average: bool,
    pub show_last_lap: bool,
    pub show_best_lap: bool,
    pub show_estimated_laps: bool,
    pub show_wear: bool,
    pub show_brake_temperature: bool,
    pub show_brake_pressure: bool,
    pub show_bias: bool,
    pub shift_start_percent: u8,
    pub shift_warning_percent: u8,
    pub limiter_percent: u8,
    pub shift_segments: u8,
    pub tyre_temperature_mode: String,
}

impl Default for WidgetOptions {
    fn default() -> (o: Self)
        ensures
            o.cars_ahead == 2 && o.cars_behind == 2 && o.rows == 8,
            !o.same_class_only && o.show_position && o.show_laps && o.show_driver,
            !o.show_car && !o.show_class && o.show_gap && o.show_pit,
            o.show_average && o.show_last_lap && o.show_best_lap && o.show_estimated_laps,
            o.show_wear && o.show_brake_temperature && o.show_brake_pressure && o.show_bias,
            o.shift_start_percent == 70 && o.shift_warning_percent == 85,
            o.limiter_percent == 95 && o.shift_segments == 10,
            o.tyre_temperature_mode@ == "surface_average"@,
    {
        WidgetOptions {
            cars_ahead: 2,
            cars_behind: 2,
            rows: 8,
            same_class_only: false,
            show_position: true,
            show_laps: true,
            show_driver: true,
            show_car: false,
            show_class: false,
            show_gap: true,
            show_pit: true,
            show_average: true,
            show_last_lap: true,
            show_best_lap: true,
            show_estimated_laps: true,
            show_wear: true,
            show_brake_temperature: true,
            show_brake_pressure: true,
            show_bias: true,
            shift_start_percent: 70,
            shift_warning_percent: 85,
            limiter_percent: 95,
            shift_segments: 10,
            tyre_temperature_mode: string_of_str("surface_average"),
        }
    }
}

pub open spec fn tyre_mode_supported(m: Seq<char>) -> bool {
    m == "surface_average"@ || m == "surface_lcr"@ || m == "carcass"@ || m == "inner_layer"@
}

fn tyre_mode_is_supported(mode: &str) -> (r: bool)
    ensures
        r == tyre_mode_supported(mode@),
{
    str_eq(mode, "surface_average") || str_eq(mode, "surface_lcr") || str_eq(mode, "carcass")
        || str_eq(mode, "inner_layer")
}

impl WidgetOptions {
    /// Clamps the counts and percentages; the shift-light thresholds end up
    /// ordered start <= warning <= limiter <= 100.
    #[verifier::rlimit(50)]
    pub fn normalize(&mut self)
        ensures
            final(self).cars_ahead == clamp(old(self).cars_ahead as int, 0, 8),
            final(self).cars_behind == clamp(old(self).cars_behind as int, 0, 8),
            final(self).rows == clamp(old(self).rows as int, 1, 20),
            final(self).shift_start_percent == clamp(old(self).shift_start_percent as int, 0, 100),
            final(self).shift_warning_percent == clamp(old(self).shift_warning_percent as int, final(self).shift_start_percent as int, 100),
            final(self).limiter_percent == clamp(old(self).limiter_percent as int, final(self).shift_warning_percent as int, 100),
            final(self).shift_segments == clamp(old(self).shift_segments as int, 4, 20),
            final(self).tyre_temperature_mode@ == (if tyre_mode_supported(old(self).tyre_temperature_mode@) {
                old(self).tyre_temperature_mode@
            } else {
                "surface_average"@
            }),
            final(self).same_class_only == old(self).same_class_only,
            final(self).show_position == old(self).show_position,
            final(self).show_laps == old(self).show_laps,
            final(self).show_driver == old(self).show_driver,
            final(self).show_car == old(self).show_car,
            final(self).show_class == old(self).show_class,
            final(self).show_gap == old(self).show_gap,
            final(self).show_pit == old(self).show_pit,
            final(self).show_average == old(self).show_average,
            final(self).show_last_lap == old(self).show_last_lap,
            final(self).show_best_lap == old(self).show_best_lap,
            final(self).show_estimated_laps == old(self).show_estimated_laps,
            final(self).show_wear == old(self).show_wear,
            final(self).show_brake_temperature == old(self).show_brake_temperature,
            final(self).show_brake_pressure == old(self).show_brake_pressure,
            final(self).show_bias == old(self).show_bias,
    {
        self.cars_ahead = clamp_u8(self.cars_ahead, 0, 8);
        self.cars_behind = clamp_u8(self.cars_behind, 0, 8);
        self.rows = clamp_u8(self.rows, 1, 20);
        self.shift_start_percent = clamp_u8(self.shift_start_percent, 0, 100);
        self.shift_warning_percent = clamp_u8(self.shift_warning_percent, self.shift_start_percent, 100);
        self.limiter_percent = clamp_u8(self.limiter_percent, self.shift_warning_percent, 100);
        self.shift_segments = clamp_u8(self.shift_segments, 4, 20);
        if !tyre_mode_is_supported(self.tyre_temperature_mode.as_str()) {
            self.tyre_temperature_mode = string_of_str("surface_average");
        }
    }
}

/// The four hotkey bindings.
#[derive(Debug, Clone, PartialEq, Eq)]
pub struct HotkeyConfig {
    pub toggle_overlay: String,
    pub edit_mode: String,
    pub toggle_coaching: String,
    pub cycle_preset: String,
}

impl Default for HotkeyConfig {
    fn default() -> (h: Self)
        ensures
            h.toggle_overlay@ == "F9"@,
            h.edit_mode@ == "F10"@,
            h.toggle_coaching@ == "Shift+F10"@,
            h.cycle_preset@ == "Ctrl+Shift+F9"@,
    {
        HotkeyConfig {
            toggle_overlay: string_of_str("F9"),
            edit_mode: string_of_str("F10"),
            toggle_coaching: string_of_str("Shift+F10"),
            cycle_preset: string_of_str("Ctrl+Shift+F9"),
        }
    }
}

/// The bindings in the order they are checked.
pub open spec fn hotkey_bindings(h: HotkeyConfig) -> Seq<Seq<char>> {
    seq![h.toggle_overlay@, h.edit_mode@, h.toggle_coaching@, h.cycle_preset@]
}

pub open spec fn hotkey_field_names() -> Seq<Seq<char>> {
    seq!["toggle_overlay"@, "edit_mode"@, "toggle_coaching"@, "cycle_preset"@]
}

/// Whether binding `i` is the first one that is invalid or repeats the
/// canonical form of an earlier binding.
pub open spec fn first_bad_binding(b: Seq<Seq<char>>, i: int) -> bool {
    &&& 0 <= i < b.len()
    &&& (hotkeys::canonical_hotkey(b[i]) is None
        || exists|j: int| 0 <= j < i && hotkeys::canonical_hotkey(b[j]) == hotkeys::canonical_hotkey(b[i]))
    &&& forall|j: int| 0 <= j < i ==> hotkeys::canonical_hotkey(#[trigger] b[j]) is Some
    &&& forall|j: int, k: int| 0 <= j < k < i ==> hotkeys::canonical_hotkey(#[trigger] b[j]) != hotkeys::canonical_hotkey(#[trigger] b[k])
}

/// All bindings valid and pairwise distinct in canonical form.
pub open spec fn bindings_ok(b: Seq<Seq<char>>) -> bool {
    &&& forall|j: int| 0 <= j < b.len() ==> hotkeys::canonical_hotkey(#[trigger] b[j]) is Some
    &&& forall|j: int, k: int| 0 <= j < k < b.len() ==> hotkeys::canonical_hotkey(#[trigger] b[j]) != hotkeys::canonical_hotkey(#[trigger] b[k])
}

impl HotkeyConfig {
    /// Checks, in order, that each binding is valid and that no two bindings
    /// have the same canonical form; reports the first offending binding.
    pub fn validate(&self) -> (r: Result<(), ConfigError>)
        ensures
            r is Ok <==> bindings_ok(hotkey_bindings(*self)),
            r matches Err(ConfigError::InvalidHotkey { field, binding }) ==> exists|i: int|
                first_bad_binding(hotkey_bindings(*self), i)
                && hotkeys::canonical_hotkey(hotkey_bindings(*self)[i]) is None
                && field@ == hotkey_field_names()[i] && binding@ == hotkey_bindings(*self)[i],
            r matches Err(ConfigError::DuplicateHotkey { first_field, second_field, binding }) ==> exists|i: int, j: int|
                first_bad_binding(hotkey_bindings(*self), i) && 0 <= j < i
                && hotkeys::canonical_hotkey(hotkey_bindings(*self)[j]) == hotkeys::canonical_hotkey(hotkey_bindings(*self)[i])
                && first_field@ == hotkey_field_names()[j] && second_field@ == hotkey_field_names()[i]
                && binding@ == hotkey_bindings(*self)[i],
            r is Err ==> r matches Err(ConfigError::InvalidHotkey { .. }) || r matches Err(ConfigError::DuplicateHotkey { .. }),
    {
        let ghost b = hotkey_bindings(*self);
        let fields: [&'static str; 4] = ["toggle_overlay", "edit_mode", "toggle_coaching", "cycle_preset"];
        let bindings: [&str; 4] = [self.toggle_overlay.as_str(), self.edit_mode.as_str(), self.toggle_coaching.as_str(), self.cycle_preset.as_str()];
        assert(fields@[0]@ == "toggle_overlay"@ && fields@[1]@ == "edit_mode"@);
        assert(fields@[2]@ == "toggle_coaching"@ && fields@[3]@ == "cycle_preset"@);
        let mut seen: Vec<String> = Vec::new();
        let mut i: usize = 0;
        while i < 4
            invariant
                b == hotkey_bindings(*self),
                bindings@.len() == 4,
                fields@.len() == 4,
                forall|k: int| 0 <= k < 4 ==> #[trigger] bindings@[k]@ == b[k],
                forall|k: int| 0 <= k < 4 ==> #[trigger] fields@[k]@ == hotkey_field_names()[k],
                i <= 4,
                seen@.len() == i,
                forall|k: int| 0 <= k < i ==> hotkeys::canonical_hotkey(#[trigger] b[k]) == Some(seen@[k]@),
                forall|j: int, k: int| 0 <= j < k < i ==> hotkeys::canonical_hotkey(#[trigger] b[j]) != hotkeys::canonical_hotkey(#[trigger] b[k]),
            decreases 4 - i,
        {
            let binding = bindings[i];
            let normalized = match normalize_hotkey(binding) {
                Some(n) => n,
                None => {
                    proof {
                        assert(first_bad_binding(b, i as int));
                    }
                    return Err(ConfigError::InvalidHotkey { field: fields[i], binding: string_of_str(binding) });
                },
            };
            let mut j: usize = 0;
            while j < i
                invariant
                    j <= i < 4,
                    seen@.len() == i,
                    b == hotkey_bindings(*self),
                    bindings@.len() == 4,
                    fields@.len() == 4,
                    forall|k: int| 0 <= k < 4 ==> #[trigger] bindings@[k]@ == b[k],
                    forall|k: int| 0 <= k < 4 ==> #[trigger] fields@[k]@ == hotkey_field_names()[k],
                    binding == bindings@[i as int],
                    hotkeys::canonical_hotkey(b[i as int]) == Some(normalized@),
                    forall|k: int| 0 <= k < i ==> hotkeys::canonical_hotkey(#[trigger] b[k]) == Some(seen@[k]@),
                    forall|j: int, k: int| 0 <= j < k < i ==> hotkeys::canonical_hotkey(#[trigger] b[j]) != hotkeys::canonical_hotkey(#[trigger] b[k]),
                    forall|k: int| 0 <= k < j ==> seen@[k]@ != normalized@,
                decreases i - j,
            {
                if str_eq(seen[j].as_str(), normalized.as_str()) {
                    proof {
                        assert(hotkeys::canonical_hotkey(b[j as int]) == hotkeys::canonical_hotkey(b[i as int]));
                        assert(first_bad_binding(b, i as int));
                    }
                    let copy = string_of_str(binding);
                    let first_field = fields[j];
                    let second_field = fields[i];
                    assert(first_bad_binding(b, i as int) && 0 <= j < i
                        && hotkeys::canonical_hotkey(b[j as int]) == hotkeys::canonical_hotkey(b[i as int])
                        && first_field@ == hotkey_field_names()[j as int]
                        && second_field@ == hotkey_field_names()[i as int]
                        && copy@ == b[i as int]);
                    return Err(ConfigError::DuplicateHotkey { first_field, second_field, binding: copy });
                }
                j = j + 1;
            }
            proof {
                assert forall|k: int| 0 <= k < i implies hotkeys::canonical_hotkey(#[trigger] b[k]) != hotkeys::canonical_hotkey(b[i as int]) by {
                    assert(seen@[k]@ != normalized@);
                }
            }
            seen.push(normalized);
            i = i + 1;
        }
        Ok(())
    }
}

/// Names the rules give to a configuration's performance mode.
#[derive(Debug, Clone, PartialEq, Eq)]
pub struct PerformanceConfig {
    pub mode: String,
}

impl Default for PerformanceConfig {
    fn default() -> (p: Self)
        ensures
            p.mode@ == "normal"@,
    {
        PerformanceConfig { mode: string_of_str("normal") }
    }
}

/// GDI color value of a `#rrggbb` web color: the three channels in the order
/// blue, green, red from the most significant byte down.
pub open spec fn colorref(rgb: nat) -> u32 {
    ((rgb / 65536) % 256 + ((rgb / 256) % 256) * 256 + (rgb % 256) * 65536) as u32
}

/// A web color's red, green and blue channels land in the GDI value's low,
/// middle and high bytes.
pub proof fn lemma_colorref_channels(r: nat, g: nat, b: nat)
    requires
        r < 256,
        g < 256,
        b < 256,
    ensures
        colorref(r * 65536 + g * 256 + b) == b * 65536 + g * 256 + r,
{
    let v = r * 65536 + g * 256 + b;
    assert(v / 65536 == r) by (nonlinear_arith)
        requires v == r * 65536 + g * 256 + b, r < 256, g < 256, b < 256;
    assert(v / 256 == r * 256 + g) by (nonlinear_arith)
        requires v == r * 65536 + g * 256 + b, g < 256, b < 256;
    assert((r * 256 + g) % 256 == g) by (nonlinear_arith)
        requires g < 256;
    assert(v % 256 == b) by (nonlinear_arith)
        requires v == r * 65536 + g * 256 + b, b < 256;
    assert(b * 65536 + g * 256 + r <= u32::MAX) by (nonlinear_arith)
        requires r < 256, g < 256, b < 256;
}

/// The text of a color with surrounding whitespace and leading `#`s removed.
pub open spec fn color_digits(value: Seq<char>) -> Seq<char> {
    let t = text::trimmed(value);
    t.subrange(leading_hashes(t), t.len() as int)
}

/// Number of `#` characters at the start of `t`.
pub open spec fn leading_hashes(t: Seq<char>) -> int {
    if exists|i: int| 0 <= i < t.len() && t[i] != '#' {
        choose|i: int| 0 <= i < t.len() && t[i] != '#' && forall|j: int| 0 <= j < i ==> t[j] == '#'
    } else {
        t.len() as int
    }
}

/// The color `value` names, or `fallback` when it is not six hex digits
/// (optionally behind `#`s and whitespace).
pub open spec fn color_spec(value: Seq<char>, fallback: u32) -> u32 {
    let d = color_digits(value);
    if d.len() == 6 && text::bounded(text::hex_value(d), u32::MAX as nat) is Some {
        colorref(text::hex_value(d)->Some_0)
    } else {
        fallback
    }
}

/// Parses a `#rrggbb` web color into a GDI color value; `fallback` when the
/// text is not a color.
pub fn parse_color(value: &str, fallback: u32) -> (c: u32)
    ensures
        c == color_spec(value@, fallback),
{
    let chars = chars_of(value);
    let (start, end) = trim_bounds(&chars);
    let ghost t = chars@.subrange(start as int, end as int);
    let mut first = start;
    while first < end && chars[first] == '#'
        invariant
            start <= first <= end <= chars.len(),
            t == chars@.subrange(start as int, end as int),
            forall|j: int| start <= j < first ==> chars@[j] == '#',
        decreases end - first,
    {
        first = first + 1;
    }
    proof {
        let h = leading_hashes(t);
        let k = (first - start) as int;
        if first < end {
            assert(t[k] != '#');
            let i = choose|i: int| 0 <= i < t.len() && t[i] != '#' && forall|j: int| 0 <= j < i ==> t[j] == '#';
            assert(0 <= k < t.len() && t[k] != '#' && forall|j: int| 0 <= j < k ==> t[j] == '#');
            if i < k {
                assert(t[i] == '#');
            }
            if i > k {
                assert(t[k] == '#');
            }
        } else {
            assert(!exists|i: int| 0 <= i < t.len() && t[i] != '#');
        }
        assert(h == k);
        assert(chars@.subrange(first as int, end as int) =~= t.subrange(h, t.len() as int));
    }
    if end - first != 6 {
        return fallback;
    }
    let digits = string_from_chars(&chars, first, end);
    match parse_hex_u32(digits.as_str()) {
        Some(rgb) => {
            let red = (rgb / 65536) % 256;
            let green = (rgb / 256) % 256;
            let blue = rgb % 256;
            red + green * 256 + blue * 65536
        },
        None => fallback,
    }
}

/// Ids of the built-in overlay surfaces, in their configured order.
pub open spec fn surface_ids() -> Seq<Seq<char>> {
    seq!["telemetry"@, "inputs"@, "lap_timing"@, "timing"@, "sectors"@, "mini_sectors"@, "coaching"@, "performance"@]
}

/// The surface ids in ascending text order.
pub open spec fn sorted_surface_ids() -> Seq<Seq<char>> {
    seq!["coaching"@, "inputs"@, "lap_timing"@, "mini_sectors"@, "performance"@, "sectors"@, "telemetry"@, "timing"@]
}

/// Ids of the built-in overlay surfaces.
pub fn overlay_surface_ids() -> (ids: Vec<&'static str>)
    ensures
        ids@.len() == surface_ids().len(),
        forall|i: int| 0 <= i < ids@.len() ==> #[trigger] ids@[i]@ == surface_ids()[i],
{
    let ids: Vec<&'static str> = vec!["telemetry", "inputs", "lap_timing", "timing", "sectors", "mini_sectors", "coaching", "performance"];
    ids
}

fn sorted_overlay_surface_ids() -> (ids: Vec<&'static str>)
    ensures
        ids@.len() == sorted_surface_ids().len(),
        forall|i: int| 0 <= i < ids@.len() ==> #[trigger] ids@[i]@ == sorted_surface_ids()[i],
{
    let ids: Vec<&'static str> = vec!["coaching", "inputs", "lap_timing", "mini_sectors", "performance", "sectors", "telemetry", "timing"];
    ids
}

/// The widget list of a new overlay surface: every built-in surface.
pub fn default_overlay_widget_ids() -> (ids: Vec<String>)
    ensures
        ids@.len() == surface_ids().len(),
        forall|i: int| 0 <= i < ids@.len() ==> #[trigger] ids@[i]@ == surface_ids()[i],
{
    let names = overlay_surface_ids();
    let mut ids: Vec<String> = Vec::new();
    let mut i: usize = 0;
    while i < names.len()
        invariant
            names@.len() == surface_ids().len(),
            forall|k: int| 0 <= k < names@.len() ==> #[trigger] names@[k]@ == surface_ids()[k],
            i <= names.len(),
            ids@.len() == i,
            forall|k: int| 0 <= k < i ==> #[trigger] ids@[k]@ == surface_ids()[k],
        decreases names.len() - i,
    {
        ids.push(string_of_str(names[i]));
        i = i + 1;
    }
    ids
}

/// One independent overlay window and the surfaces it shows.
#[derive(Debug, Clone, PartialEq, Eq)]
pub struct OverlayLayerConfig {
    pub id: String,
    pub name: String,
    pub enabled: bool,
    pub window: WindowConfig,
    pub widgets: Vec<String>,
}

impl Default for OverlayLayerConfig {
    fn default() -> (layer: Self)
        ensures
            layer.id@ == "main"@,
            layer.name@ == "Main overlay"@,
            layer.enabled,
            layer.window == (WindowConfig { x: 40, y: 40, width: 420, height: 230, refresh_hz: 60, sample_ms: 10, history_samples: 180 }),
            layer.widgets@.len() == surface_ids().len(),
            forall|i: int| 0 <= i < layer.widgets@.len() ==> #[trigger] layer.widgets@[i]@ == surface_ids()[i],
    {
        OverlayLayerConfig {
            id: string_of_str("main"),
            name: string_of_str("Main overlay"),
            enabled: true,
            window: WindowConfig::default(),
            widgets: default_overlay_widget_ids(),
        }
    }
}

pub open spec fn views(v: Seq<String>) -> Seq<Seq<char>> {
    v.map_values(|s: String| s@)
}

/// Whether the list of strings `v` holds the text `w`.
pub fn contains_text(v: &Vec<String>, w: &str) -> (r: bool)
    ensures
        r == views(v@).contains(w@),
{
    let mut i: usize = 0;
    while i < v.len()
        invariant
            i <= v.len(),
            forall|k: int| 0 <= k < i ==> v@[k]@ != w@,
        decreases v.len() - i,
    {
        if str_eq(v[i].as_str(), w) {
            assert(views(v@)[i as int] == w@);
            return true;
        }
        i = i + 1;
    }
    assert forall|k: int| 0 <= k < views(v@).len() implies views(v@)[k] != w@ by {
        assert(views(v@)[k] == v@[k]@);
    }
    false
}

/// A surface's widget list as it is kept: only built-in surface ids, each
/// once, in ascending order.
pub open spec fn normalized_surface_list(widgets: Seq<Seq<char>>) -> Seq<Seq<char>> {
    sorted_surface_ids().filter(|id: Seq<char>| widgets.contains(id))
}

/// Keeps the known surface ids of `widgets`, sorted and without repeats.
pub fn normalize_surface_list(widgets: &Vec<String>) -> (r: Vec<String>)
    ensures
        views(r@) == normalized_surface_list(views(widgets@)),
{
    let sorted = sorted_overlay_surface_ids();
    let mut out: Vec<String> = Vec::new();
    let mut i: usize = 0;
    let ghost w = views(widgets@);
    while i < sorted.len()
        invariant
            sorted@.len() == sorted_surface_ids().len(),
            forall|k: int| 0 <= k < sorted@.len() ==> #[trigger] sorted@[k]@ == sorted_surface_ids()[k],
            i <= sorted.len(),
            w == views(widgets@),
            views(out@) == sorted_surface_ids().subrange(0, i as int).filter(|id: Seq<char>| w.contains(id)),
        decreases sorted.len() - i,
    {
        let id = sorted[i];
        let ghost prefix = sorted_surface_ids().subrange(0, i as int);
        let ghost next = sorted_surface_ids().subrange(0, i + 1);
        proof {
            assert(next.drop_last() =~= prefix);
            assert(next.last() == id@);
            reveal(Seq::filter);
        }
        if contains_text(widgets, id) {
            out.push(string_of_str(id));
            assert(views(out@) =~= next.filter(|id: Seq<char>| w.contains(id)));
        } else {
            assert(views(out@) =~= next.filter(|id: Seq<char>| w.contains(id)));
        }
        i = i + 1;
    }
    assert(sorted_surface_ids().subrange(0, sorted@.len() as int) =~= sorted_surface_ids());
    out
}

/// An overlay id as written, trimmed and lower-cased (ASCII).
pub open spec fn layer_id_candidate(raw: Seq<char>) -> Seq<char> {
    text::trimmed(raw).map_values(|c: char| text::ascii_lower(c))
}

/// The generated surface id numbered `index + 1`: `overlay-<index + 1>`.
pub open spec fn generated_layer_id(index: int) -> Seq<char> {
    "overlay-"@ + text::int_text(index + 1)
}

/// The name given to the surface at `index` when its own is blank.
pub open spec fn generated_layer_name(index: int) -> Seq<char> {
    "Overlay "@ + text::int_text(index + 1)
}

/// The first of the `fuel` slots from `slot` on whose generated id is not in
/// `taken` (the last one tried when every one is taken).
pub open spec fn free_layer_slot(taken: Seq<Seq<char>>, slot: int, fuel: nat) -> int
    decreases fuel,
{
    if fuel <= 1 || !taken.contains(generated_layer_id(slot)) {
        slot
    } else {
        free_layer_slot(taken, slot + 1, (fuel - 1) as nat)
    }
}

/// The ids the surfaces end up with, in order: each surface keeps its
/// trimmed, lower-cased id unless that is empty or already taken by an
/// earlier surface, in which case it gets `overlay-<n>` for the first `n`
/// from its own position on that no earlier surface holds.
pub open spec fn assigned_layer_ids(raw: Seq<Seq<char>>) -> Seq<Seq<char>>
    decreases raw.len(),
{
    if raw.len() == 0 {
        Seq::empty()
    } else {
        let prev = assigned_layer_ids(raw.drop_last());
        let candidate = layer_id_candidate(raw.last());
        let index = raw.len() - 1;
        prev.push(if candidate.len() == 0 || prev.contains(candidate) {
            generated_layer_id(free_layer_slot(prev, index, prev.len() + 1))
        } else {
            candidate
        })
    }
}

/// A surface id as the repaired configuration holds it: not empty, without
/// surrounding whitespace, and without ASCII capitals.
pub open spec fn layer_id_well_formed(id: Seq<char>) -> bool {
    &&& id.len() > 0
    &&& text::trimmed(id) == id
    &&& id.map_values(|c: char| text::ascii_lower(c)) == id
}

proof fn lemma_generated_id_injective(a: int, b: int)
    requires
        a >= 0,
        b >= 0,
        generated_layer_id(a) == generated_layer_id(b),
    ensures
        a == b,
{
    reveal_strlit("overlay-");
    let ga = generated_layer_id(a);
    let gb = generated_layer_id(b);
    assert(ga.subrange(8, ga.len() as int) =~= text::decimal_digits((a + 1) as nat));
    assert(gb.subrange(8, gb.len() as int) =~= text::decimal_digits((b + 1) as nat));
    text::lemma_decimal_digits_injective((a + 1) as nat, (b + 1) as nat);
}

/// Among the ids of `taken.len() + 1` consecutive slots, one is free.
proof fn lemma_free_slot_exists(taken: Seq<Seq<char>>, slot: int)
    requires
        slot >= 0,
    ensures
        exists|k: int| 0 <= k <= taken.len() && !taken.contains(#[trigger] generated_layer_id(slot + k)),
    decreases taken.len(),
{
    if !taken.contains(generated_layer_id(slot)) {
        assert(!taken.contains(generated_layer_id(slot + 0)));
    } else {
        let j = choose|j: int| 0 <= j < taken.len() && taken[j] == generated_layer_id(slot);
        let rest = taken.remove(j);
        lemma_free_slot_exists(rest, slot + 1);
        let k = choose|k: int| 0 <= k <= rest.len() && !rest.contains(#[trigger] generated_layer_id(slot + 1 + k));
        let g = generated_layer_id(slot + 1 + k);
        assert(generated_layer_id(slot + (k + 1)) == g);
        if taken.contains(g) {
            let i = choose|i: int| 0 <= i < taken.len() && taken[i] == g;
            if i == j {
                lemma_generated_id_injective(slot, slot + 1 + k);
            } else if i < j {
                assert(rest[i] == g);
            } else {
                assert(rest[i - 1] == g);
            }
        }
    }
}

proof fn lemma_free_slot_found(taken: Seq<Seq<char>>, slot: int, fuel: nat)
    requires
        exists|k: int| 0 <= k < fuel && !taken.contains(#[trigger] generated_layer_id(slot + k)),
    ensures
        slot <= free_layer_slot(taken, slot, fuel) < slot + fuel,
        !taken.contains(generated_layer_id(free_layer_slot(taken, slot, fuel))),
    decreases fuel,
{
    let k = choose|k: int| 0 <= k < fuel && !taken.contains(#[trigger] generated_layer_id(slot + k));
    if fuel <= 1 {
        assert(slot + k == slot);
    } else if taken.contains(generated_layer_id(slot)) {
        assert(k != 0);
        assert(generated_layer_id((slot + 1) + (k - 1)) == generated_layer_id(slot + k));
        lemma_free_slot_found(taken, slot + 1, (fuel - 1) as nat);
    }
}

proof fn lemma_assigned_len(raw: Seq<Seq<char>>)
    ensures
        assigned_layer_ids(raw).len() == raw.len(),
    decreases raw.len(),
{
    if raw.len() > 0 {
        lemma_assigned_len(raw.drop_last());
    }
}

/// The name a surface ends up with.
pub open spec fn assigned_layer_name(raw: Seq<char>, index: int) -> Seq<char> {
    if text::trimmed(raw).len() == 0 { generated_layer_name(index) } else { raw }
}

proof fn lemma_ascii_lower(c: char)
    ensures
        text::is_white_space(text::ascii_lower(c)) == text::is_white_space(c),
        text::ascii_lower(text::ascii_lower(c)) == text::ascii_lower(c),
{
    if 'A' <= c <= 'Z' {
        assert('a' <= text::ascii_lower(c) <= 'z');
    }
}

proof fn lemma_lower_fixed(s: Seq<char>)
    requires
        forall|k: int| 0 <= k < s.len() ==> text::ascii_lower(#[trigger] s[k]) == s[k],
    ensures
        s.map_values(|c: char| text::ascii_lower(c)) == s,
{
    assert(s.map_values(|c: char| text::ascii_lower(c)) =~= s);
}

/// Every generated surface id is well formed.
proof fn lemma_generated_id_well_formed(slot: int)
    requires
        slot >= 0,
    ensures
        layer_id_well_formed(generated_layer_id(slot)),
{
    reveal_strlit("overlay-");
    let d = text::decimal_digits((slot + 1) as nat);
    let g = generated_layer_id(slot);
    text::lemma_decimal_digits_len((slot + 1) as nat);
    text::lemma_decimal_digits_are_digits((slot + 1) as nat);
    assert(g == "overlay-"@ + d);
    assert(g[0] == 'o');
    assert(g.last() == d.last());
    assert(d.last() == d[d.len() - 1]);
    text::lemma_trimmed_unchanged(g);
    assert forall|k: int| 0 <= k < g.len() implies text::ascii_lower(#[trigger] g[k]) == g[k] by {
        if k >= 8 {
            assert(g[k] == d[k - 8]);
        }
    }
    lemma_lower_fixed(g);
}

fn layer_id_candidate_of(raw: &str) -> (r: String)
    ensures
        r@ == layer_id_candidate(raw@),
        r@.len() > 0 ==> layer_id_well_formed(r@),
{
    let chars = chars_of(raw);
    let (start, end) = trim_bounds(&chars);
    let mut out = String::new();
    let mut i = start;
    while i < end
        invariant
            start <= i <= end <= chars.len(),
            out@ == chars@.subrange(start as int, i as int).map_values(|c: char| text::ascii_lower(c)),
        decreases end - i,
    {
        text::push_char(&mut out, text::to_ascii_lower_char(chars[i]));
        i = i + 1;
        assert(out@ =~= chars@.subrange(start as int, i as int).map_values(|c: char| text::ascii_lower(c)));
    }
    proof {
        let r = out@;
        if r.len() > 0 {
            lemma_ascii_lower(chars@[start as int]);
            lemma_ascii_lower(chars@[end - 1]);
            assert(r[0] == text::ascii_lower(chars@[start as int]));
            assert(r.last() == text::ascii_lower(chars@[end - 1]));
            text::lemma_trimmed_unchanged(r);
            assert forall|k: int| 0 <= k < r.len() implies text::ascii_lower(#[trigger] r[k]) == r[k] by {
                lemma_ascii_lower(chars@[start + k]);
            }
            lemma_lower_fixed(r);
        }
    }
    out
}

fn is_blank(s: &str) -> (r: bool)
    ensures
        r == (text::trimmed(s@).len() == 0),
{
    let chars = chars_of(s);
    let (start, end) = trim_bounds(&chars);
    start == end
}

fn numbered(prefix: &str, index: usize) -> (r: String)
    requires
        index < i64::MAX,
        index < usize::MAX,
    ensures
        r@ == prefix@ + text::int_text(index + 1),
{
    let mut out = string_of_str(prefix);
    text::push_int(&mut out, (index + 1) as i64);
    out
}

/// The id `overlay-<n>` for the first `n` from `index + 1` on that `used`
/// does not hold.
fn free_layer_id(used: &Vec<String>, index: usize) -> (r: String)
    requires
        index + used@.len() + 1 < i64::MAX,
        index + used@.len() + 1 < usize::MAX,
    ensures
        r@ == generated_layer_id(free_layer_slot(views(used@), index as int, (used@.len() + 1) as nat)),
        free_layer_slot(views(used@), index as int, (used@.len() + 1) as nat) >= index,
        !views(used@).contains(r@),
{
    let ghost taken = views(used@);
    let ghost fuel = (used@.len() + 1) as nat;
    proof {
        lemma_free_slot_exists(taken, index as int);
        let k = choose|k: int| 0 <= k <= taken.len() && !taken.contains(#[trigger] generated_layer_id(index + k));
        assert(0 <= k < fuel && !taken.contains(generated_layer_id(index + k)));
        lemma_free_slot_found(taken, index as int, fuel);
    }
    let ghost target = free_layer_slot(taken, index as int, fuel);
    let mut slot = index;
    let mut rem: usize = used.len() + 1;
    loop
        invariant
            taken == views(used@),
            target == free_layer_slot(views(used@), index as int, (used@.len() + 1) as nat),
            free_layer_slot(taken, slot as int, rem as nat) == target,
            index <= slot <= target < slot + rem,
            !taken.contains(generated_layer_id(target)),
            target < index + used@.len() + 1,
            index + used@.len() + 1 < i64::MAX,
            index + used@.len() + 1 < usize::MAX,
        decreases rem,
    {
        let id = numbered("overlay-", slot);
        assert(id@ == generated_layer_id(slot as int));
        if !contains_text(used, id.as_str()) {
            assert(free_layer_slot(taken, slot as int, rem as nat) == slot as int);
            return id;
        }
        assert(slot < target);
        assert(free_layer_slot(taken, slot as int, rem as nat) == free_layer_slot(taken, slot + 1, (rem - 1) as nat));
        slot = slot + 1;
        rem = rem - 1;
    }
}

/// The surfaces the overlay shows: the configured ones, or the default
/// surface when none is configured.
pub open spec fn effective_layer_ids(layers: Seq<OverlayLayerConfig>) -> Seq<Seq<char>> {
    if layers.len() == 0 { seq!["main"@] } else { layers.map_values(|l: OverlayLayerConfig| l.id@) }
}

/// Repairs the overlay surfaces: at least one surface; ids that are
/// non-empty, trimmed, lower-case and pairwise distinct; a name for each;
/// windows clamped; widget lists reduced to the known surface ids, sorted and
/// without repeats.
pub fn normalize_overlay_layers(layers: &mut Vec<OverlayLayerConfig>)
    requires
        2 * old(layers)@.len() < i64::MAX,
        2 * old(layers)@.len() < usize::MAX,
    ensures
        final(layers)@.len() == (if old(layers)@.len() == 0 { 1 } else { old(layers)@.len() }),
        forall|i: int| 0 <= i < final(layers)@.len() ==> (#[trigger] final(layers)@[i]).id@
            == assigned_layer_ids(effective_layer_ids(old(layers)@))[i],
        forall|i: int| 0 <= i < final(layers)@.len() ==> layer_id_well_formed((#[trigger] final(layers)@[i]).id@),
        forall|i: int, j: int| 0 <= i < j < final(layers)@.len() ==>
            (#[trigger] final(layers)@[i]).id@ != (#[trigger] final(layers)@[j]).id@,
        old(layers)@.len() == 0 ==> final(layers)@[0].name@ == assigned_layer_name("Main overlay"@, 0) && final(layers)@[0].enabled
            && final(layers)@[0].window == normalized_layer_window(WindowConfig { x: 40, y: 40, width: 420, height: 230, refresh_hz: 60, sample_ms: 10, history_samples: 180 })
            && views(final(layers)@[0].widgets@) == normalized_surface_list(surface_ids()),
        old(layers)@.len() > 0 ==> forall|i: int| 0 <= i < final(layers)@.len() ==> {
            &&& (#[trigger] final(layers)@[i]).name@ == assigned_layer_name(old(layers)@[i].name@, i)
            &&& final(layers)@[i].enabled == old(layers)@[i].enabled
            &&& final(layers)@[i].window == normalized_layer_window(old(layers)@[i].window)
            &&& views(final(layers)@[i].widgets@) == normalized_surface_list(views(old(layers)@[i].widgets@))
        },
{
    let mut input: Vec<OverlayLayerConfig> = Vec::new();
    std::mem::swap(layers, &mut input);
    if input.len() == 0 {
        input.push(OverlayLayerConfig::default());
        proof {
            assert(views(input@[0].widgets@) =~= surface_ids());
        }
    }
    let ghost raw_ids = input@.map_values(|l: OverlayLayerConfig| l.id@);
    proof {
        assert(raw_ids =~= effective_layer_ids(old(layers)@));
        lemma_assigned_len(raw_ids);
    }
    let mut out: Vec<OverlayLayerConfig> = Vec::new();
    let mut used: Vec<String> = Vec::new();
    let mut index: usize = 0;
    while index < input.len()
        invariant
            2 * input@.len() < i64::MAX,
            2 * input@.len() < usize::MAX,
            raw_ids == input@.map_values(|l: OverlayLayerConfig| l.id@),
            index <= input.len(),
            out@.len() == index,
            used@.len() == index,
            views(used@) == assigned_layer_ids(raw_ids.subrange(0, index as int)),
            forall|i: int| 0 <= i < index ==> (#[trigger] out@[i]).id@ == views(used@)[i],
            forall|i: int| 0 <= i < index ==> layer_id_well_formed(#[trigger] views(used@)[i]),
            views(used@).no_duplicates(),
            forall|i: int| 0 <= i < index ==> {
                &&& (#[trigger] out@[i]).name@ == assigned_layer_name(input@[i].name@, i)
                &&& out@[i].enabled == input@[i].enabled
                &&& out@[i].window == normalized_layer_window(input@[i].window)
                &&& views(out@[i].widgets@) == normalized_surface_list(views(input@[i].widgets@))
            },
        decreases input.len() - index,
    {
        let layer = &input[index];
        let candidate = layer_id_candidate_of(layer.id.as_str());
        let ghost prev = views(used@);
        proof {
            assert(raw_ids.subrange(0, index + 1).drop_last() =~= raw_ids.subrange(0, index as int));
            assert(raw_ids.subrange(0, index + 1).last() == layer.id@);
        }
        let id = if candidate.as_str().unicode_len() == 0 || contains_text(&used, candidate.as_str()) {
            free_layer_id(&used, index)
        } else {
            candidate
        };
        let name = if is_blank(layer.name.as_str()) { numbered("Overlay ", index) } else { layer.name.clone() };
        let mut window = layer.window;
        normalize_layer_window(&mut window);
        let widgets = normalize_surface_list(&layer.widgets);
        proof {
            if id@ != candidate@ || candidate@.len() == 0 {
                lemma_generated_id_well_formed(free_layer_slot(prev, index as int, (prev.len() + 1) as nat));
            }
            assert(layer_id_well_formed(id@));
            assert(!prev.contains(id@));
        }
        let id_copy = id.clone();
        used.push(id_copy);
        proof {
            assert(views(used@) =~= prev.push(id@));
            assert forall|a: int, b: int| 0 <= a < views(used@).len() && 0 <= b < views(used@).len() && a != b
                implies views(used@)[a] != views(used@)[b] by {
                if b == index as int {
                    assert(prev.contains(views(used@)[a]));
                } else if a == index as int {
                    assert(prev.contains(views(used@)[b]));
                }
            }
        }
        out.push(OverlayLayerConfig { id, name, enabled: layer.enabled, window, widgets });
        index = index + 1;
    }
    proof {
        assert(raw_ids.subrange(0, input@.len() as int) =~= raw_ids);
    }
    *layers = out;
}

/// Finds the overlay surface with the given id (the first one, if several).
pub fn find_overlay_layer(layers: &Vec<OverlayLayerConfig>, layer_id: &str) -> (r: Result<usize, ConfigError>)
    ensures
        r matches Ok(i) ==> i < layers@.len() && layers@[i as int].id@ == layer_id@
            && forall|j: int| 0 <= j < i ==> (#[trigger] layers@[j]).id@ != layer_id@,
        r is Err ==> forall|j: int| 0 <= j < layers@.len() ==> (#[trigger] layers@[j]).id@ != layer_id@,
        r matches Err(e) ==> e matches ConfigError::UnknownOverlayLayer(id) && id@ == layer_id@,
{
    let mut i: usize = 0;
    while i < layers.len()
        invariant
            i <= layers@.len(),
            forall|j: int| 0 <= j < i ==> (#[trigger] layers@[j]).id@ != layer_id@,
        decreases layers.len() - i,
    {
        if str_eq(layers[i].id.as_str(), layer_id) {
            return Ok(i);
        }
        i = i + 1;
    }
    Err(ConfigError::UnknownOverlayLayer(string_of_str(layer_id)))
}

/// The built-in widgets a surface shows: those enabled in the configuration
/// whose surface the surface's widget list names.
pub open spec fn widgets_on_layer(w: WidgetConfig, layer: Seq<Seq<char>>) -> WidgetConfig {
    WidgetConfig {
        title: w.title && layer.contains("telemetry"@),
        speed_gear_rpm: w.speed_gear_rpm && layer.contains("telemetry"@),
        pedals: w.pedals && layer.contains("inputs"@),
        steering: w.steering && layer.contains("inputs"@),
        input_history: w.input_history && layer.contains("inputs"@),
        lap_info: w.lap_info && layer.contains("lap_timing"@),
        lap_timing: w.lap_timing && layer.contains("lap_timing"@),
        delta_timing: w.delta_timing && layer.contains("timing"@),
        sectors: w.sectors && layer.contains("sectors"@),
        mini_sector_widget: w.mini_sector_widget && layer.contains("mini_sectors"@),
        coaching: w.coaching && layer.contains("coaching"@),
        performance_monitor: w.performance_monitor && layer.contains("performance"@),
        ghost_inputs: w.ghost_inputs,
    }
}

/// Restricts the built-in widgets to those of one surface.
pub fn widgets_for_layer(widgets: WidgetConfig, layer_widgets: &Vec<String>) -> (r: WidgetConfig)
    ensures
        r == widgets_on_layer(widgets, views(layer_widgets@)),
{
    let telemetry = contains_text(layer_widgets, "telemetry");
    let inputs = contains_text(layer_widgets, "inputs");
    let lap_timing = contains_text(layer_widgets, "lap_timing");
    let timing = contains_text(layer_widgets, "timing");
    let sectors = contains_text(layer_widgets, "sectors");
    let mini_sectors = contains_text(layer_widgets, "mini_sectors");
    let coaching = contains_text(layer_widgets, "coaching");
    let performance = contains_text(layer_widgets, "performance");
    WidgetConfig {
        title: widgets.title && telemetry,
        speed_gear_rpm: widgets.speed_gear_rpm && telemetry,
        pedals: widgets.pedals && inputs,
        steering: widgets.steering && inputs,
        input_history: widgets.input_history && inputs,
        lap_info: widgets.lap_info && lap_timing,
        lap_timing: widgets.lap_timing && lap_timing,
        delta_timing: widgets.delta_timing && timing,
        sectors: widgets.sectors && sectors,
        mini_sector_widget: widgets.mini_sector_widget && mini_sectors,
        coaching: widgets.coaching && coaching,
        performance_monitor: widgets.performance_monitor && performance,
        ghost_inputs: widgets.ghost_inputs,
    }
}

/// The built-in presets.
#[derive(Debug, Clone, Copy, PartialEq, Eq, Structural)]
pub enum PresetSlot {
    Practice,
    Qualifying,
    Race,
    Endurance,
    Minimal,
}

/// The preset the preset hotkey moves to from `slot`: practice, qualifying,
/// race, endurance, minimal, and back to practice.
pub open spec fn slot_after(slot: PresetSlot) -> PresetSlot {
    match slot {
        PresetSlot::Practice => PresetSlot::Qualifying,
        PresetSlot::Qualifying => PresetSlot::Race,
        PresetSlot::Race => PresetSlot::Endurance,
        PresetSlot::Endurance => PresetSlot::Minimal,
        PresetSlot::Minimal => PresetSlot::Practice,
    }
}

/// What tells the presets apart in a running configuration: the performance
/// and reference modes, the mini-sector count and the built-in widgets.
#[derive(Debug, Clone)]
pub struct PresetFingerprint {
    pub performance_mode: String,
    pub reference_mode: String,
    pub mini_sectors: u16,
    pub widgets: WidgetConfig,
}

pub open spec fn fingerprint_view(f: PresetFingerprint) -> (Seq<char>, Seq<char>, u16, WidgetConfig) {
    (f.performance_mode@, f.reference_mode@, f.mini_sectors, f.widgets)
}

/// The fingerprints of the five saved presets.
#[derive(Debug, Clone)]
pub struct SavedPresets {
    pub practice: PresetFingerprint,
    pub qualifying: PresetFingerprint,
    pub race: PresetFingerprint,
    pub endurance: PresetFingerprint,
    pub minimal: PresetFingerprint,
}

pub open spec fn saved_fingerprint(saved: SavedPresets, slot: PresetSlot) -> (Seq<char>, Seq<char>, u16, WidgetConfig) {
    fingerprint_view(match slot {
        PresetSlot::Practice => saved.practice,
        PresetSlot::Qualifying => saved.qualifying,
        PresetSlot::Race => saved.race,
        PresetSlot::Endurance => saved.endurance,
        PresetSlot::Minimal => saved.minimal,
    })
}

/// The saved preset the running configuration is on: the first, in cycle
/// order, whose whole fingerprint it matches.
pub open spec fn identified_preset(
    current: (Seq<char>, Seq<char>, u16, WidgetConfig),
    saved: SavedPresets,
) -> Option<PresetSlot> {
    if current == saved_fingerprint(saved, PresetSlot::Practice) {
        Some(PresetSlot::Practice)
    } else if current == saved_fingerprint(saved, PresetSlot::Qualifying) {
        Some(PresetSlot::Qualifying)
    } else if current == saved_fingerprint(saved, PresetSlot::Race) {
        Some(PresetSlot::Race)
    } else if current == saved_fingerprint(saved, PresetSlot::Endurance) {
        Some(PresetSlot::Endurance)
    } else if current == saved_fingerprint(saved, PresetSlot::Minimal) {
        Some(PresetSlot::Minimal)
    } else {
        None
    }
}

pub open spec fn modes_match(
    current: (Seq<char>, Seq<char>, u16, WidgetConfig),
    saved: SavedPresets,
    slot: PresetSlot,
) -> bool {
    current.0 == saved_fingerprint(saved, slot).0 && current.1 == saved_fingerprint(saved, slot).1
}

/// The first saved preset, in cycle order, whose performance and reference
/// modes the running configuration has (its widgets may have been changed
/// since the preset was picked).
pub open spec fn preset_by_modes(
    current: (Seq<char>, Seq<char>, u16, WidgetConfig),
    saved: SavedPresets,
) -> Option<PresetSlot> {
    if modes_match(current, saved, PresetSlot::Practice) {
        Some(PresetSlot::Practice)
    } else if modes_match(current, saved, PresetSlot::Qualifying) {
        Some(PresetSlot::Qualifying)
    } else if modes_match(current, saved, PresetSlot::Race) {
        Some(PresetSlot::Race)
    } else if modes_match(current, saved, PresetSlot::Endurance) {
        Some(PresetSlot::Endurance)
    } else if modes_match(current, saved, PresetSlot::Minimal) {
        Some(PresetSlot::Minimal)
    } else {
        None
    }
}

/// The preset the hotkey switches to: the one after the preset the
/// configuration is on, found by its whole fingerprint or else by its modes;
/// on none of them, minimal from an eco configuration and practice otherwise.
pub open spec fn next_preset_spec(current: (Seq<char>, Seq<char>, u16, WidgetConfig), saved: SavedPresets) -> PresetSlot {
    match identified_preset(current, saved) {
        Some(slot) => slot_after(slot),
        None => match preset_by_modes(current, saved) {
            Some(slot) => slot_after(slot),
            None => if current.0 == "eco"@ { PresetSlot::Minimal } else { PresetSlot::Practice },
        },
    }
}

fn same_fingerprint(a: &PresetFingerprint, b: &PresetFingerprint) -> (r: bool)
    ensures
        r == (fingerprint_view(*a) == fingerprint_view(*b)),
{
    str_eq(a.performance_mode.as_str(), b.performance_mode.as_str())
        && str_eq(a.reference_mode.as_str(), b.reference_mode.as_str())
        && a.mini_sectors == b.mini_sectors
        && a.widgets == b.widgets
}

fn same_modes(a: &PresetFingerprint, b: &PresetFingerprint) -> (r: bool)
    ensures
        r == (a.performance_mode@ == b.performance_mode@ && a.reference_mode@ == b.reference_mode@),
{
    str_eq(a.performance_mode.as_str(), b.performance_mode.as_str())
        && str_eq(a.reference_mode.as_str(), b.reference_mode.as_str())
}

/// Picks the preset the preset hotkey switches to.
pub fn next_preset(current: &PresetFingerprint, saved: &SavedPresets) -> (slot: PresetSlot)
    ensures
        slot == next_preset_spec(fingerprint_view(*current), *saved),
{
    if same_fingerprint(current, &saved.practice) {
        PresetSlot::Qualifying
    } else if same_fingerprint(current, &saved.qualifying) {
        PresetSlot::Race
    } else if same_fingerprint(current, &saved.race) {
        PresetSlot::Endurance
    } else if same_fingerprint(current, &saved.endurance) {
        PresetSlot::Minimal
    } else if same_fingerprint(current, &saved.minimal) {
        PresetSlot::Practice
    } else if same_modes(current, &saved.practice) {
        PresetSlot::Qualifying
    } else if same_modes(current, &saved.qualifying) {
        PresetSlot::Race
    } else if same_modes(current, &saved.race) {
        PresetSlot::Endurance
    } else if same_modes(current, &saved.endurance) {
        PresetSlot::Minimal
    } else if same_modes(current, &saved.minimal) {
        PresetSlot::Practice
    } else if str_eq(current.performance_mode.as_str(), "eco") {
        PresetSlot::Minimal
    } else {
        PresetSlot::Practice
    }
}

/// The saved presets can be told apart.
pub open spec fn presets_distinct(saved: SavedPresets) -> bool {
    forall|a: PresetSlot, b: PresetSlot| a != b ==> #[trigger] saved_fingerprint(saved, a) != #[trigger] saved_fingerprint(saved, b)
}

/// When the saved presets can be told apart, the hotkey moves from each one
/// to the next in the cycle, so five presses from any preset visit all five
/// and come back to it.
pub proof fn lemma_preset_hotkey_cycles(saved: SavedPresets, slot: PresetSlot)
    requires
        presets_distinct(saved),
    ensures
        next_preset_spec(saved_fingerprint(saved, slot), saved) == slot_after(slot),
        slot_after(slot_after(slot_after(slot_after(slot_after(slot))))) == slot,
        slot_after(slot) != slot,
        slot_after(slot_after(slot)) != slot,
        slot_after(slot_after(slot_after(slot))) != slot,
        slot_after(slot_after(slot_after(slot_after(slot)))) != slot,
{
    assert(saved_fingerprint(saved, slot) != saved_fingerprint(saved, PresetSlot::Practice) || slot == PresetSlot::Practice);
    assert(saved_fingerprint(saved, slot) != saved_fingerprint(saved, PresetSlot::Qualifying) || slot == PresetSlot::Qualifying);
    assert(saved_fingerprint(saved, slot) != saved_fingerprint(saved, PresetSlot::Race) || slot == PresetSlot::Race);
    assert(saved_fingerprint(saved, slot) != saved_fingerprint(saved, PresetSlot::Endurance) || slot == PresetSlot::Endurance);
}

/// The number of mini sectors, clamped to 1 through 200.
pub fn normalize_mini_sectors(v: u16) -> (r: u16)
    ensures
        r == clamp(v as int, 1, 200),
{
    if v < 1 { 1 } else if v > 200 { 200 } else { v }
}

/// The configuration fields the schema migrations rewrite.
#[derive(Debug, Clone, PartialEq, Eq)]
pub struct SchemaFields {
    pub config_version: u32,
    pub hotkeys: HotkeyConfig,
    pub units: UnitsConfig,
}

/// Work a migration leaves to the parts of the configuration that hold
/// fractional values: preset normalization and widget style normalization.
#[derive(Debug, Clone, Copy, PartialEq, Eq, Structural)]
pub struct MigrationSteps {
    pub normalize_presets: bool,
    pub normalize_widget_styles: bool,
}

pub open spec fn blank(s: Seq<char>) -> bool {
    text::trimmed(s).len() == 0
}

/// `value` when it is not blank, `default` otherwise.
pub open spec fn filled(value: Seq<char>, default: Seq<char>) -> Seq<char> {
    if blank(value) { default } else { value }
}

fn fill_if_blank(value: &mut String, default: &str)
    ensures
        final(value)@ == filled(old(value)@, default@),
{
    if is_blank(value.as_str()) {
        *value = string_of_str(default);
    }
}

impl SchemaFields {
    /// Version 2 added the overlay and edit-mode hotkeys.
    pub fn migrate_v1_to_v2(&mut self)
        ensures
            final(self).hotkeys.toggle_overlay@ == filled(old(self).hotkeys.toggle_overlay@, "F9"@),
            final(self).hotkeys.edit_mode@ == filled(old(self).hotkeys.edit_mode@, "F10"@),
            final(self).hotkeys.toggle_coaching@ == old(self).hotkeys.toggle_coaching@,
            final(self).hotkeys.cycle_preset@ == old(self).hotkeys.cycle_preset@,
            final(self).units == old(self).units,
            final(self).config_version == 2,
    {
        fill_if_blank(&mut self.hotkeys.toggle_overlay, "F9");
        fill_if_blank(&mut self.hotkeys.edit_mode, "F10");
        self.config_version = 2;
    }

    /// Version 3 added the coaching and preset hotkeys.
    pub fn migrate_v2_to_v3(&mut self)
        ensures
            final(self).hotkeys.toggle_coaching@ == filled(old(self).hotkeys.toggle_coaching@, "Shift+F10"@),
            final(self).hotkeys.cycle_preset@ == filled(old(self).hotkeys.cycle_preset@, "Ctrl+Shift+F9"@),
            final(self).hotkeys.toggle_overlay@ == old(self).hotkeys.toggle_overlay@,
            final(self).hotkeys.edit_mode@ == old(self).hotkeys.edit_mode@,
            final(self).units == old(self).units,
            final(self).config_version == 3,
    {
        fill_if_blank(&mut self.hotkeys.toggle_coaching, "Shift+F10");
        fill_if_blank(&mut self.hotkeys.cycle_preset, "Ctrl+Shift+F9");
        self.config_version = 3;
    }

    /// Version 4 made the temperature, pressure and fuel units explicit.
    pub fn migrate_v3_to_v4(&mut self)
        ensures
            final(self).units.temperature@ == filled(old(self).units.temperature@, "celsius"@),
            final(self).units.pressure@ == filled(old(self).units.pressure@, "kpa"@),
            final(self).units.fuel@ == filled(old(self).units.fuel@, "liters"@),
            final(self).units.speed@ == old(self).units.speed@,
            final(self).hotkeys == old(self).hotkeys,
            final(self).config_version == 4,
    {
        fill_if_blank(&mut self.units.temperature, "celsius");
        fill_if_blank(&mut self.units.pressure, "kpa");
        fill_if_blank(&mut self.units.fuel, "liters");
        self.config_version = 4;
    }

    /// Version 5 normalized the presets (left to the caller: see
    /// [`MigrationSteps`]).
    pub fn migrate_v4_to_v5(&mut self)
        ensures
            final(self).hotkeys == old(self).hotkeys,
            final(self).units == old(self).units,
            final(self).config_version == 5,
    {
        self.config_version = 5;
    }

    /// Version 6 normalized widget styles (left to the caller).
    pub fn migrate_v5_to_v6(&mut self)
        ensures
            final(self).hotkeys == old(self).hotkeys,
            final(self).units == old(self).units,
            final(self).config_version == 6,
    {
        self.config_version = 6;
    }

    /// Version 7 added per-widget options, which take their defaults.
    pub fn migrate_v6_to_v7(&mut self)
        ensures
            final(self).hotkeys == old(self).hotkeys,
            final(self).units == old(self).units,
            final(self).config_version == 7,
    {
        self.config_version = 7;
    }

    /// Runs every migration from `from_version` up to the current version.
    pub fn migrate(&mut self, from_version: u32) -> (steps: MigrationSteps)
        ensures
            final(self).config_version == CURRENT_CONFIG_VERSION,
            final(self).hotkeys.toggle_overlay@ == (if from_version <= 1 { filled(old(self).hotkeys.toggle_overlay@, "F9"@) } else { old(self).hotkeys.toggle_overlay@ }),
            final(self).hotkeys.edit_mode@ == (if from_version <= 1 { filled(old(self).hotkeys.edit_mode@, "F10"@) } else { old(self).hotkeys.edit_mode@ }),
            final(self).hotkeys.toggle_coaching@ == (if from_version <= 2 { filled(old(self).hotkeys.toggle_coaching@, "Shift+F10"@) } else { old(self).hotkeys.toggle_coaching@ }),
            final(self).hotkeys.cycle_preset@ == (if from_version <= 2 { filled(old(self).hotkeys.cycle_preset@, "Ctrl+Shift+F9"@) } else { old(self).hotkeys.cycle_preset@ }),
            final(self).units.speed@ == old(self).units.speed@,
            final(self).units.temperature@ == (if from_version <= 3 { filled(old(self).units.temperature@, "celsius"@) } else { old(self).units.temperature@ }),
            final(self).units.pressure@ == (if from_version <= 3 { filled(old(self).units.pressure@, "kpa"@) } else { old(self).units.pressure@ }),
            final(self).units.fuel@ == (if from_version <= 3 { filled(old(self).units.fuel@, "liters"@) } else { old(self).units.fuel@ }),
            steps.normalize_presets == (from_version <= 4),
            steps.normalize_widget_styles == (from_version <= 5),
    {
        if from_version <= 1 {
            self.migrate_v1_to_v2();
        }
        if from_version <= 2 {
            self.migrate_v2_to_v3();
        }
        if from_version <= 3 {
            self.migrate_v3_to_v4();
        }
        if from_version <= 4 {
            self.migrate_v4_to_v5();
        }
        if from_version <= 5 {
            self.migrate_v5_to_v6();
        }
        if from_version <= 6 {
            self.migrate_v6_to_v7();
        } else {
            self.config_version = CURRENT_CONFIG_VERSION;
        }
        MigrationSteps { normalize_presets: from_version <= 4, normalize_widget_styles: from_version <= 5 }
    }
}

/// Rejects a schema version newer than the supported one.
pub fn check_version(found: u32) -> (r: Result<(), ConfigError>)
    ensures
        r is Ok <==> found <= CURRENT_CONFIG_VERSION,
        r is Err ==> r == Err::<(), ConfigError>(ConfigError::UnsupportedVersion { found, supported: CURRENT_CONFIG_VERSION }),
{
    if found > CURRENT_CONFIG_VERSION {
        return Err(ConfigError::UnsupportedVersion { found, supported: CURRENT_CONFIG_VERSION });
    }
    Ok(())
}

/// A version of 0 (unset) stands for the current version.
pub fn normalize_version(found: u32) -> (v: u32)
    ensures
        v == (if found == 0 { CURRENT_CONFIG_VERSION } else { found }),
{
    if found == 0 { CURRENT_CONFIG_VERSION } else { found }
}

/// What loading a configuration file has to do.
#[derive(Debug, Clone, Copy, PartialEq, Eq, Structural)]
pub struct LoadPlan {
    /// Back up the file and migrate the configuration.
    pub migrate: bool,
    /// Write the normalized configuration back.
    pub rewrite: bool,
}

/// Decides how a loaded file is treated: a newer schema is refused before
/// anything is written; an older one is migrated; a migrated file, or one
/// without overlay surfaces, is written back.
pub fn plan_load(found: u32, has_overlays: bool) -> (r: Result<LoadPlan, ConfigError>)
    ensures
        r is Err <==> found > CURRENT_CONFIG_VERSION,
        r is Err ==> r == Err::<LoadPlan, ConfigError>(ConfigError::UnsupportedVersion { found, supported: CURRENT_CONFIG_VERSION }),
        r matches Ok(plan) ==> plan.migrate == (found < CURRENT_CONFIG_VERSION)
            && plan.rewrite == (found < CURRENT_CONFIG_VERSION || !has_overlays),
{
    check_version(found)?;
    let migrate = found < CURRENT_CONFIG_VERSION;
    Ok(LoadPlan { migrate, rewrite: migrate || !has_overlays })
}

/// A save only goes ahead when the file is still at the revision the
/// editor started from.
pub fn check_revision(expected: u64, actual: u64) -> (r: Result<(), ConfigError>)
    ensures
        r is Ok <==> expected == actual,
        r is Err ==> r == Err::<(), ConfigError>(ConfigError::Conflict { expected, actual }),
{
    if actual != expected {
        return Err(ConfigError::Conflict { expected, actual });
    }
    Ok(())
}

/// The checks a configuration passes before it may replace the saved one:
/// a supported schema version and valid, distinct hotkeys.
pub fn validate_for_save(config_version: u32, hotkeys: &HotkeyConfig) -> (r: Result<(), ConfigError>)
    ensures
        config_version > CURRENT_CONFIG_VERSION ==> r == Err::<(), ConfigError>(ConfigError::UnsupportedVersion { found: config_version, supported: CURRENT_CONFIG_VERSION }),
        config_version <= CURRENT_CONFIG_VERSION ==> (r is Ok <==> bindings_ok(hotkey_bindings(*hotkeys))),
        config_version <= CURRENT_CONFIG_VERSION && r is Err ==>
            (r matches Err(ConfigError::InvalidHotkey { .. }) || r matches Err(ConfigError::DuplicateHotkey { .. })),
{
    check_version(config_version)?;
    let normalized = normalize_version(config_version);
    check_version(normalized)?;
    hotkeys.validate()
}

/// What the revision of a file's bytes is.
pub uninterp spec fn revision_of(bytes: Seq<u8>) -> u64;

/// `DefaultHasher::new()` fed the bytes (as `<[u8] as Hash>::hash` does) and
/// finished. The std hasher built by `new` has fixed keys, so the result is
/// a function of the bytes; the contract names it and states nothing more.
#[verifier::external_body]
fn hash_bytes(bytes: &[u8]) -> (r: u64)
    ensures
        r == revision_of(bytes@),
{
    let mut hasher = std::collections::hash_map::DefaultHasher::new();
    bytes.hash(&mut hasher);
    hasher.finish()
}

/// The revision of a configuration file with contents `bytes`: a hash of
/// the bytes, so that a save can tell whether the file changed since it
/// was read.
pub fn config_revision(bytes: &[u8]) -> (r: u64)
    ensures
        r == revision_of(bytes@),
{
    hash_bytes(bytes)
}

/// Repairing a repaired main window changes nothing.
pub proof fn lemma_normalize_window_idempotent(w: WindowConfig, mode: Seq<char>)
    ensures
        normalized_window(normalized_window(w, mode), mode) == normalized_window(w, mode),
{
}

/// A repaired main window refreshes at the frame rate of the performance
/// mode the configuration names and samples at that mode's telemetry rate;
/// for any other mode its rates are only clamped.
pub proof fn lemma_window_rates_follow_performance_mode(w: WindowConfig, mode: Seq<char>)
    ensures
        match performance_mode_named(mode) {
            Some(m) => {
                &&& normalized_window(w, mode).refresh_hz == crate::lap_engine::render_fps_of(m)
                &&& 1000u64 / normalized_window(w, mode).sample_ms == crate::lap_engine::telemetry_hz_of(m)
            },
            None => {
                &&& normalized_window(w, mode).refresh_hz == clamp(w.refresh_hz as int, 15, 144)
                &&& normalized_window(w, mode).sample_ms == clamp(w.sample_ms as int, 5, 250)
            },
        },
{
    reveal_strlit("eco");
    reveal_strlit("normal");
    reveal_strlit("high_refresh");
    assert("eco"@.len() == 3);
    assert("normal"@.len() == 6);
    assert("high_refresh"@.len() == 12);
    assert(1000u64 / 20u64 == 50u64);
    assert(1000u64 / 10u64 == 100u64);
    if mode == "eco"@ {
        assert(performance_rates(mode) == Some((30u64, 20u64)));
    } else if mode == "normal"@ {
        assert(performance_rates(mode) == Some((60u64, 10u64)));
    } else if mode == "high_refresh"@ {
        assert(performance_rates(mode) == Some((120u64, 10u64)));
    }
}

/// A repaired main window has its size and rates in the supported ranges.
pub proof fn lemma_normalized_window_in_range(w: WindowConfig, mode: Seq<char>)
    ensures
        window_in_range(normalized_window(w, mode)),
        16 <= normalized_window(w, mode).history_samples <= 900,
{
}

/// Repairing a repaired unit changes nothing, and the result is always one
/// of the two supported units.
pub proof fn lemma_unit_choice_idempotent(v: Seq<char>, first: Seq<char>, second: Seq<char>)
    ensures
        unit_choice(unit_choice(v, first, second), first, second) == unit_choice(v, first, second),
        unit_choice(v, first, second) == first || unit_choice(v, first, second) == second,
{
}

/// Restricting filters that agree on every element of `s` gives the same sequence.
proof fn lemma_filter_agree(s: Seq<Seq<char>>, p: spec_fn(Seq<char>) -> bool, q: spec_fn(Seq<char>) -> bool)
    requires
        forall|i: int| 0 <= i < s.len() ==> p(#[trigger] s[i]) == q(s[i]),
    ensures
        s.filter(p) == s.filter(q),
    decreases s.len(),
{
    reveal(Seq::filter);
    if s.len() > 0 {
        lemma_filter_agree(s.drop_last(), p, q);
        assert forall|i: int| 0 <= i < s.drop_last().len() implies p(#[trigger] s.drop_last()[i]) == q(s.drop_last()[i]) by {
            assert(s.drop_last()[i] == s[i]);
        }
        lemma_filter_agree(s.drop_last(), p, q);
        assert(p(s.last()) == q(s[s.len() - 1]));
    }
}

/// Reducing an already reduced surface list changes nothing.
pub proof fn lemma_surface_list_idempotent(widgets: Seq<Seq<char>>)
    ensures
        normalized_surface_list(normalized_surface_list(widgets)) == normalized_surface_list(widgets),
{
    let sorted = sorted_surface_ids();
    let p = |id: Seq<char>| widgets.contains(id);
    let f = sorted.filter(p);
    let q = |id: Seq<char>| f.contains(id);
    assert forall|i: int| 0 <= i < sorted.len() implies p(#[trigger] sorted[i]) == q(sorted[i]) by {
        sorted.filter_lemma(p);
        if p(sorted[i]) {
            assert(f.contains(sorted[i]));
        }
        if q(sorted[i]) {
            let k = choose|k: int| 0 <= k < f.len() && f[k] == sorted[i];
            assert(p(f[k]));
        }
    }
    lemma_filter_agree(sorted, q, p);
    assert(normalized_surface_list(f) == sorted.filter(q));
}

/// A surface never shows a built-in widget that the configuration disables.
pub proof fn lemma_layer_never_enables(w: WidgetConfig, layer: Seq<Seq<char>>)
    ensures
        widgets_on_layer(w, layer).title ==> w.title,
        widgets_on_layer(w, layer).speed_gear_rpm ==> w.speed_gear_rpm,
        widgets_on_layer(w, layer).pedals ==> w.pedals,
        widgets_on_layer(w, layer).steering ==> w.steering,
        widgets_on_layer(w, layer).input_history ==> w.input_history,
        widgets_on_layer(w, layer).lap_info ==> w.lap_info,
        widgets_on_layer(w, layer).lap_timing ==> w.lap_timing,
        widgets_on_layer(w, layer).delta_timing ==> w.delta_timing,
        widgets_on_layer(w, layer).sectors ==> w.sectors,
        widgets_on_layer(w, layer).mini_sector_widget ==> w.mini_sector_widget,
        widgets_on_layer(w, layer).coaching ==> w.coaching,
        widgets_on_layer(w, layer).performance_monitor ==> w.performance_monitor,
        widgets_on_layer(w, layer).ghost_inputs == w.ghost_inputs,
{
}


/// The numeric settings of the overlay's visual style (its scale, a
/// fraction, is kept beside them).
#[derive(Debug, Clone, Copy, PartialEq, Eq, Structural)]
pub struct StyleNumbers {
    pub opacity: u8,
    pub line_thickness: i32,
    pub border_radius: i32,
    pub font_size: i32,
    pub font_weight: i32,
    pub large_number_size: i32,
}

impl StyleNumbers {
    /// Brings each setting into its range: opacity 32..=255, line thickness
    /// 1..=8, border radius 0..=32, font size 8..=36, font weight
    /// 100..=900, large numbers 12..=72.
    pub fn normalize(&mut self)
        ensures
            final(self).opacity == clamp(old(self).opacity as int, 32, 255),
            final(self).line_thickness == clamp(old(self).line_thickness as int, 1, 8),
            final(self).border_radius == clamp(old(self).border_radius as int, 0, 32),
            final(self).font_size == clamp(old(self).font_size as int, 8, 36),
            final(self).font_weight == clamp(old(self).font_weight as int, 100, 900),
            final(self).large_number_size == clamp(old(self).large_number_size as int, 12, 72),
    {
        self.opacity = clamp_u8(self.opacity, 32, 255);
        self.line_thickness = clamp_i32(self.line_thickness, 1, 8);
        self.border_radius = clamp_i32(self.border_radius, 0, 32);
        self.font_size = clamp_i32(self.font_size, 8, 36);
        self.font_weight = clamp_i32(self.font_weight, 100, 900);
        self.large_number_size = clamp_i32(self.large_number_size, 12, 72);
    }
}

/// The numeric settings of one widget's own style (its font scale, a
/// fraction, is kept beside them).
#[derive(Debug, Clone, Copy, PartialEq, Eq, Structural)]
pub struct WidgetStyleNumbers {
    pub border_width: i32,
    pub border_radius: i32,
    pub padding: i32,
}

impl WidgetStyleNumbers {
    /// Border width 0..=8, border radius 0..=32, padding 0..=48.
    pub fn normalize(&mut self)
        ensures
            final(self).border_width == clamp(old(self).border_width as int, 0, 8),
            final(self).border_radius == clamp(old(self).border_radius as int, 0, 32),
            final(self).padding == clamp(old(self).padding as int, 0, 48),
    {
        self.border_width = clamp_i32(self.border_width, 0, 8);
        self.border_radius = clamp_i32(self.border_radius, 0, 32);
        self.padding = clamp_i32(self.padding, 0, 48);
    }
}

/// The coaching choices (its thresholds, fractions, are kept beside them).
#[derive(Debug, Clone, PartialEq, Eq)]
pub struct CoachingChoices {
    pub mode: String,
    pub brake_timing: bool,
    pub throttle_timing: bool,
    pub input_match: bool,
    pub speed: bool,
    pub gear: bool,
    pub max_hints: u8,
}

/// The coaching modes: `off`, `race`, `practice`, `attack`.
pub open spec fn coaching_mode_known(mode: Seq<char>) -> bool {
    mode == "off"@ || mode == "race"@ || mode == "practice"@ || mode == "attack"@
}

impl CoachingChoices {
    /// An unknown mode becomes `practice`; at most 1 to 6 hints; mode `off`
    /// switches every hint kind off.
    pub fn normalize(&mut self)
        ensures
            final(self).mode@ == (if coaching_mode_known(old(self).mode@) { old(self).mode@ } else { "practice"@ }),
            final(self).max_hints == clamp(old(self).max_hints as int, 1, 6),
            ({
                let off = final(self).mode@ == "off"@;
                &&& final(self).brake_timing == (old(self).brake_timing && !off)
                &&& final(self).throttle_timing == (old(self).throttle_timing && !off)
                &&& final(self).input_match == (old(self).input_match && !off)
                &&& final(self).speed == (old(self).speed && !off)
                &&& final(self).gear == (old(self).gear && !off)
            }),
    {
        let m = self.mode.as_str();
        if !(str_eq(m, "off") || str_eq(m, "race") || str_eq(m, "practice") || str_eq(m, "attack")) {
            self.mode = string_of_str("practice");
        }
        self.max_hints = clamp_u8(self.max_hints, 1, 6);
        if str_eq(self.mode.as_str(), "off") {
            self.brake_timing = false;
            self.throttle_timing = false;
            self.input_match = false;
            self.speed = false;
            self.gear = false;
        }
    }
}

/// Where the catalog widget at `index` starts out, disabled: a grid of
/// three columns of 132 by 52 tiles, stacked above the built-in widgets.
pub fn extra_widget_box(index: usize) -> (b: crate::edit_layout::LayoutBox)
    requires
        index / 3 * 62 + 16 <= i32::MAX,
    ensures
        b.x == 16 + (index % 3) * 142,
        b.y == 16 + (index / 3) * 62,
        b.width == 132,
        b.height == 52,
        !b.locked,
        b.z_index == 100 + index,
{
    let column = (index % 3) as i32;
    let row = (index / 3) as i32;
    crate::edit_layout::LayoutBox {
        x: 16 + column * 142,
        y: 16 + row * 62,
        width: 132,
        height: 52,
        locked: false,
        z_index: 100 + index as i32,
    }
}

} // verus!
