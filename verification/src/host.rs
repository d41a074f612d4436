//! Decisions of the overlay host process: hotkey actions, the replies of
//! its control pipe, and the reading of a pipe message.

use vstd::prelude::*;
use crate::text::{self, chars_of, decode_utf8_lossy, push_str, string_from_chars, trim_bounds};
use crate::config::{ConfigError, OverlayLayerConfig, find_overlay_layer};
use crate::lap_store::ReferenceLapKey;
use crate::telemetry::TelemetryMetadata;

verus! {

/// What a host hotkey asks for.
#[derive(Debug, Clone, Copy, PartialEq, Eq, Structural)]
pub enum HostAction {
    ToggleVisibility,
    ToggleEditMode,
    ToggleCoaching,
    CyclePreset,
}

pub const HOTKEY_TOGGLE_VISIBILITY: i32 = 1;
pub const HOTKEY_TOGGLE_EDIT: i32 = 2;
pub const HOTKEY_TOGGLE_COACHING: i32 = 3;
pub const HOTKEY_CYCLE_PRESET: i32 = 4;

/// The action of a registered hotkey id.
pub fn action_for_hotkey(id: i32) -> (action: Option<HostAction>)
    ensures
        action == (if id == 1 {
            Some(HostAction::ToggleVisibility)
        } else if id == 2 {
            Some(HostAction::ToggleEditMode)
        } else if id == 3 {
            Some(HostAction::ToggleCoaching)
        } else if id == 4 {
            Some(HostAction::CyclePreset)
        } else {
            None::<HostAction>
        }),
{
    if id == HOTKEY_TOGGLE_VISIBILITY {
        Some(HostAction::ToggleVisibility)
    } else if id == HOTKEY_TOGGLE_EDIT {
        Some(HostAction::ToggleEditMode)
    } else if id == HOTKEY_TOGGLE_COACHING {
        Some(HostAction::ToggleCoaching)
    } else if id == HOTKEY_CYCLE_PRESET {
        Some(HostAction::CyclePreset)
    } else {
        None
    }
}

/// The reply to a control command and whether the host stops.
pub open spec fn command_reply_spec(command: Option<Seq<char>>) -> (Seq<char>, bool) {
    match command {
        Some(c) => if c == "status"@ {
            ("running"@, false)
        } else if c == "stop"@ || c == "shutdown"@ {
            ("stopping"@, true)
        } else if c == "reload"@ || c == "show"@ || c == "hide"@ {
            ("unsupported"@, false)
        } else {
            ("invalid"@, false)
        },
        None => ("invalid"@, false),
    }
}

/// Answers a command received on the control pipe; the flag says whether
/// the host is to stop.
pub fn command_reply(command: Option<&str>) -> (r: (&'static str, bool))
    ensures
        (r.0@, r.1) == command_reply_spec(match command {
            Some(c) => Some(c@),
            None => None,
        }),
{
    match command {
        Some(c) => {
            if text::str_eq(c, "status") {
                ("running", false)
            } else if text::str_eq(c, "stop") || text::str_eq(c, "shutdown") {
                ("stopping", true)
            } else if text::str_eq(c, "reload") || text::str_eq(c, "show") || text::str_eq(c, "hide") {
                ("unsupported", false)
            } else {
                ("invalid", false)
            }
        },
        None => ("invalid", false),
    }
}

/// The control protocol: the host stops exactly on `stop` or `shutdown`,
/// and then answers `stopping`; `status` is answered `running`; `reload`,
/// `show` and `hide` are answered `unsupported`; anything else, or no
/// command, is answered `invalid`. Only a stop request stops the host.
pub proof fn lemma_control_protocol(command: Option<Seq<char>>)
    ensures
        command_reply_spec(command).1 <==> (command == Some("stop"@) || command == Some("shutdown"@)),
        command_reply_spec(command).0 == "stopping"@ <==> (command == Some("stop"@) || command == Some("shutdown"@)),
        command_reply_spec(command).0 == "running"@ <==> command == Some("status"@),
        command_reply_spec(command).0 == "unsupported"@
            <==> (command == Some("reload"@) || command == Some("show"@) || command == Some("hide"@)),
        command_reply_spec(command).0 == "invalid"@ <==> !(command == Some("stop"@) || command == Some("shutdown"@)
            || command == Some("status"@) || command == Some("reload"@) || command == Some("show"@)
            || command == Some("hide"@)),
{
    reveal_strlit("stop");
    reveal_strlit("shutdown");
    reveal_strlit("status");
    reveal_strlit("reload");
    reveal_strlit("show");
    reveal_strlit("hide");
    reveal_strlit("stopping");
    reveal_strlit("running");
    reveal_strlit("unsupported");
    reveal_strlit("invalid");
    assert("stopping"@.len() == 8);
    assert("running"@.len() == 7);
    assert("unsupported"@.len() == 11);
    assert("invalid"@.len() == 7);
    assert("running"@[0] != "invalid"@[0]);
    assert("stop"@.len() == 4);
    assert("shutdown"@.len() == 8);
    assert("status"@.len() == 6);
    assert("reload"@.len() == 6);
    assert("show"@.len() == 4);
    assert("hide"@.len() == 4);
    assert("stop"@[1] != "show"@[1]);
    assert("stop"@[0] != "hide"@[0]);
    assert("show"@[0] != "hide"@[0]);
    assert("status"@[0] != "reload"@[0]);
}

/// A pipe message as text: decoded (invalid UTF-8 replaced) and trimmed.
pub fn decode_message(bytes: &[u8]) -> (s: String)
    ensures
        s@ == text::trimmed(text::lossy_utf8(bytes@)),
{
    let decoded = decode_utf8_lossy(bytes);
    let chars = chars_of(decoded.as_str());
    let (start, end) = trim_bounds(&chars);
    string_from_chars(&chars, start, end)
}

/// Whether a status reply says the host is running.
pub fn host_reports_running(reply: &str) -> (r: bool)
    ensures
        r == (reply@ == "running"@),
{
    text::str_eq(reply, "running")
}


/// The overlay surfaces the host opens: the selected one (an unknown id is
/// an error), or else every enabled surface, in configuration order.
pub fn surfaces_to_open(layers: &Vec<OverlayLayerConfig>, selected: Option<&str>) -> (r: Result<Vec<usize>, ConfigError>)
    ensures
        selected matches Some(id) ==> (match r {
            Ok(v) => v@.len() == 1 && v@[0] < layers@.len() && layers@[v@[0] as int].id@ == id@
                && forall|j: int| 0 <= j < v@[0] ==> (#[trigger] layers@[j]).id@ != id@,
            Err(e) => (e matches ConfigError::UnknownOverlayLayer(u) && u@ == id@)
                && forall|j: int| 0 <= j < layers@.len() ==> (#[trigger] layers@[j]).id@ != id@,
        }),
        selected is None ==> (r matches Ok(v) && v@ == enabled_layers(layers@, layers@.len() as int)),
{
    match selected {
        Some(id) => {
            let i = find_overlay_layer(layers, id)?;
            let mut v: Vec<usize> = Vec::new();
            v.push(i);
            Ok(v)
        },
        None => {
            let mut v: Vec<usize> = Vec::new();
            let mut i: usize = 0;
            while i < layers.len()
                invariant
                    i <= layers@.len(),
                    v@ == enabled_layers(layers@, i as int),
                decreases layers.len() - i,
            {
                if layers[i].enabled {
                    v.push(i);
                }
                i = i + 1;
            }
            Ok(v)
        },
    }
}

/// The indices below `n` of the enabled surfaces, in order.
pub open spec fn enabled_layers(layers: Seq<OverlayLayerConfig>, n: int) -> Seq<usize>
    decreases n,
{
    if n <= 0 {
        Seq::empty()
    } else if layers[n - 1].enabled {
        enabled_layers(layers, n - 1).push((n - 1) as usize)
    } else {
        enabled_layers(layers, n - 1)
    }
}

fn text_or(value: &Option<String>, fallback: &str) -> (s: String)
    ensures
        s@ == (match value {
            Some(v) => v@,
            None => fallback@,
        }),
{
    match value {
        Some(v) => v.clone(),
        None => {
            let mut s = String::new();
            push_str(&mut s, fallback);
            s
        },
    }
}

/// The key personal-best laps are stored under for the car and track in
/// `metadata`: unknown names become `unknown-track` and `unknown-car`, an
/// unknown layout the empty name; the vehicle class is kept for the
/// earlier naming scheme.
pub fn reference_lap_key(metadata: &TelemetryMetadata) -> (key: ReferenceLapKey)
    ensures
        key.track@ == (match metadata.track_name {
            Some(v) => v@,
            None => "unknown-track"@,
        }),
        key.track_layout@ == (match metadata.track_layout {
            Some(v) => v@,
            None => Seq::<char>::empty(),
        }),
        key.car@ == (match metadata.vehicle_name {
            Some(v) => v@,
            None => "unknown-car"@,
        }),
        key.legacy_vehicle_class == metadata.vehicle_class,
{
    ReferenceLapKey {
        track: text_or(&metadata.track_name, "unknown-track"),
        track_layout: match &metadata.track_layout {
            Some(v) => v.clone(),
            None => String::new(),
        },
        car: text_or(&metadata.vehicle_name, "unknown-car"),
        legacy_vehicle_class: match &metadata.vehicle_class {
            Some(v) => Some(v.clone()),
            None => None,
        },
    }
}


/// The overlay switches the hotkeys flip.
#[derive(Debug, Clone, Copy, PartialEq, Eq, Structural)]
pub struct OverlayToggles {
    pub visible: bool,
    pub edit_mode: bool,
    pub coaching: bool,
}

/// What the window does after a hotkey: show or hide itself, let clicks
/// through or not, set the coaching mode, switch to the next preset,
/// repaint, and save the configuration.
#[derive(Debug, Clone, Copy, PartialEq, Eq)]
pub struct HotkeyEffects {
    pub show_window: Option<bool>,
    pub click_through: Option<bool>,
    pub coaching_mode: Option<&'static str>,
    pub cycle_preset: bool,
    pub repaint: bool,
    pub save_config: bool,
}

pub open spec fn toggles_after(t: OverlayToggles, action: HostAction) -> OverlayToggles {
    match action {
        HostAction::ToggleVisibility => OverlayToggles { visible: !t.visible, ..t },
        HostAction::ToggleEditMode => OverlayToggles { edit_mode: !t.edit_mode, visible: true, ..t },
        HostAction::ToggleCoaching => OverlayToggles { coaching: !t.coaching, ..t },
        HostAction::CyclePreset => t,
    }
}

/// Applies a hotkey to the overlay's switches: visibility flips; edit mode
/// flips and shows the overlay, which lets clicks through only outside
/// edit mode; coaching flips between `practice` and `off` and is saved; a
/// preset change is repainted and saved.
pub fn apply_hotkey(t: &mut OverlayToggles, action: HostAction) -> (e: HotkeyEffects)
    ensures
        *final(t) == toggles_after(*old(t), action),
        e.show_window == (match action {
            HostAction::ToggleVisibility => Some(final(t).visible),
            HostAction::ToggleEditMode => Some(true),
            _ => None::<bool>,
        }),
        e.click_through == (if action is ToggleEditMode { Some(!final(t).edit_mode) } else { None::<bool> }),
        (e.coaching_mode matches Some(m) ==> action is ToggleCoaching
            && m@ == (if final(t).coaching { "practice"@ } else { "off"@ })),
        (action is ToggleCoaching ==> e.coaching_mode is Some),
        e.cycle_preset == (action is CyclePreset),
        e.repaint == (action is ToggleCoaching || action is CyclePreset),
        e.save_config == (action is ToggleCoaching || action is CyclePreset),
{
    let none = HotkeyEffects {
        show_window: None,
        click_through: None,
        coaching_mode: None,
        cycle_preset: false,
        repaint: false,
        save_config: false,
    };
    match action {
        HostAction::ToggleVisibility => {
            t.visible = !t.visible;
            HotkeyEffects { show_window: Some(t.visible), ..none }
        },
        HostAction::ToggleEditMode => {
            t.edit_mode = !t.edit_mode;
            t.visible = true;
            HotkeyEffects { show_window: Some(true), click_through: Some(!t.edit_mode), ..none }
        },
        HostAction::ToggleCoaching => {
            t.coaching = !t.coaching;
            let mode = if t.coaching { "practice" } else { "off" };
            HotkeyEffects { coaching_mode: Some(mode), repaint: true, save_config: true, ..none }
        },
        HostAction::CyclePreset => {
            HotkeyEffects { cycle_preset: true, repaint: true, save_config: true, ..none }
        },
    }
}

/// Pressing the visibility, edit-mode or coaching hotkey twice leaves that
/// switch as it was.
pub proof fn lemma_toggle_twice_restores(t: OverlayToggles, action: HostAction)
    requires
        !(action is CyclePreset),
    ensures
        action is ToggleVisibility ==> toggles_after(toggles_after(t, action), action) == t,
        action is ToggleCoaching ==> toggles_after(toggles_after(t, action), action) == t,
        action is ToggleEditMode ==> toggles_after(toggles_after(t, action), action).edit_mode == t.edit_mode,
{
}


/// Each hotkey changes only its own switch: visibility flips the
/// visibility; edit mode flips edit mode and always leaves the overlay
/// shown; coaching flips coaching; a preset change flips nothing.
pub proof fn lemma_hotkey_touches_only_its_switch(t: OverlayToggles, action: HostAction)
    ensures
        ({
            let n = toggles_after(t, action);
            &&& (action is ToggleVisibility ==> n.visible == !t.visible && n.edit_mode == t.edit_mode && n.coaching == t.coaching)
            &&& (action is ToggleEditMode ==> n.edit_mode == !t.edit_mode && n.visible && n.coaching == t.coaching)
            &&& (action is ToggleCoaching ==> n.coaching == !t.coaching && n.visible == t.visible && n.edit_mode == t.edit_mode)
            &&& (action is CyclePreset ==> n == t)
        }),
{
}

/// The registered hotkey ids name four different actions, and no other id
/// names one.
pub proof fn lemma_hotkey_ids(id: i32)
    ensures
        ({
            let a = if id == HOTKEY_TOGGLE_VISIBILITY {
                Some(HostAction::ToggleVisibility)
            } else if id == HOTKEY_TOGGLE_EDIT {
                Some(HostAction::ToggleEditMode)
            } else if id == HOTKEY_TOGGLE_COACHING {
                Some(HostAction::ToggleCoaching)
            } else if id == HOTKEY_CYCLE_PRESET {
                Some(HostAction::CyclePreset)
            } else {
                None::<HostAction>
            };
            a is Some <==> (1 <= id <= 4)
        }),
        HOTKEY_TOGGLE_VISIBILITY != HOTKEY_TOGGLE_EDIT,
        HOTKEY_TOGGLE_VISIBILITY != HOTKEY_TOGGLE_COACHING,
        HOTKEY_TOGGLE_VISIBILITY != HOTKEY_CYCLE_PRESET,
        HOTKEY_TOGGLE_EDIT != HOTKEY_TOGGLE_COACHING,
        HOTKEY_TOGGLE_EDIT != HOTKEY_CYCLE_PRESET,
        HOTKEY_TOGGLE_COACHING != HOTKEY_CYCLE_PRESET,
{
}

/// With no surface selected the host opens exactly the enabled surfaces,
/// each once, in configuration order.
pub proof fn lemma_enabled_layers(layers: Seq<OverlayLayerConfig>, n: int)
    requires
        0 <= n <= layers.len(),
        layers.len() <= usize::MAX,
    ensures
        forall|k: int| 0 <= k < enabled_layers(layers, n).len() ==>
            (#[trigger] enabled_layers(layers, n)[k]) < n && layers[enabled_layers(layers, n)[k] as int].enabled,
        forall|a: int, b: int| 0 <= a < b < enabled_layers(layers, n).len() ==>
            #[trigger] enabled_layers(layers, n)[a] < #[trigger] enabled_layers(layers, n)[b],
        forall|i: int| 0 <= i < n && (#[trigger] layers[i]).enabled ==>
            enabled_layers(layers, n).contains(i as usize),
    decreases n,
{
    if n > 0 {
        lemma_enabled_layers(layers, n - 1);
        let prev = enabled_layers(layers, n - 1);
        if layers[n - 1].enabled {
            let cur = enabled_layers(layers, n);
            assert(cur == prev.push((n - 1) as usize));
            assert forall|k: int| 0 <= k < cur.len() implies
                (#[trigger] cur[k]) < n && layers[cur[k] as int].enabled by {
                if k < prev.len() {
                    assert(cur[k] == prev[k]);
                } else {
                    assert(cur[k] == (n - 1) as usize);
                }
            }
            assert forall|a: int, b: int| 0 <= a < b < cur.len() implies #[trigger] cur[a] < #[trigger] cur[b] by {
                assert(cur[a] == prev[a]);
                if b < prev.len() {
                    assert(cur[b] == prev[b]);
                } else {
                    assert(cur[b] == (n - 1) as usize);
                    assert(prev[a] < n - 1);
                }
            }
            assert forall|i: int| 0 <= i < n && (#[trigger] layers[i]).enabled implies
                enabled_layers(layers, n).contains(i as usize) by {
                if i < n - 1 {
                    let k = choose|k: int| 0 <= k < prev.len() && prev[k] == i as usize;
                    assert(enabled_layers(layers, n)[k] == i as usize);
                } else {
                    assert(enabled_layers(layers, n)[prev.len() as int] == i as usize);
                }
            }
        } else {
            assert(enabled_layers(layers, n) == prev);
        }
    }
}

} // verus!
