//! Telemetry value types decoded from the game's raw integer codes.

use vstd::prelude::*;
use vstd::std_specs::convert::FromSpecImpl;
use crate::text::{self, int_to_string, push_int, push_str};

verus! {

/// The gear the car is in, decoded from the raw telemetry value.
#[derive(Debug, Clone, Copy, PartialEq, Eq, Structural)]
pub enum Gear {
    Reverse,
    Neutral,
    Forward(u8),
    Unknown(i32),
}

/// Decoding of a raw gear value: -1 is reverse, 0 neutral, 1 through 99 a
/// forward gear, anything else is kept as unknown.
pub open spec fn gear_from_raw(value: i32) -> Gear {
    if value == -1 {
        Gear::Reverse
    } else if value == 0 {
        Gear::Neutral
    } else if 1 <= value <= 99 {
        Gear::Forward(value as u8)
    } else {
        Gear::Unknown(value)
    }
}

/// The raw number a gear stands for.
pub open spec fn gear_value(gear: Gear) -> int {
    match gear {
        Gear::Reverse => -1,
        Gear::Neutral => 0,
        Gear::Forward(v) => v as int,
        Gear::Unknown(v) => v as int,
    }
}

impl From<i32> for Gear {
    fn from(value: i32) -> (gear: Self) {
        if value == -1 {
            Gear::Reverse
        } else if value == 0 {
            Gear::Neutral
        } else if 1 <= value && value <= 99 {
            Gear::Forward(value as u8)
        } else {
            Gear::Unknown(value)
        }
    }
}

impl FromSpecImpl<i32> for Gear {
    open spec fn obeys_from_spec() -> bool {
        true
    }

    open spec fn from_spec(v: i32) -> Self {
        gear_from_raw(v)
    }
}

/// The raw number of a gear: -1 for reverse, 0 for neutral.
pub fn gear_number(gear: Gear) -> (n: i32)
    ensures
        n as int == gear_value(gear),
{
    match gear {
        Gear::Reverse => -1,
        Gear::Neutral => 0,
        Gear::Forward(value) => value as i32,
        Gear::Unknown(value) => value,
    }
}

/// Decoding a raw gear value and taking its number gives the raw value back,
/// for every raw value.
pub proof fn lemma_gear_number_round_trip(value: i32)
    ensures
        gear_value(gear_from_raw(value)) == value as int,
{
}

/// How a gear is displayed.
pub open spec fn gear_text_spec(gear: Gear) -> Seq<char> {
    match gear {
        Gear::Reverse => seq!['R'],
        Gear::Neutral => seq!['N'],
        Gear::Forward(v) => text::int_text(v as int),
        Gear::Unknown(v) => seq!['?', '('] + text::int_text(v as int) + seq![')'],
    }
}

impl Gear {
    /// Display text: `R`, `N`, the gear number, or `?(raw)`.
    pub fn text(&self) -> (s: String)
        ensures
            s@ == gear_text_spec(*self),
    {
        match self {
            Gear::Reverse => {
                let mut s = String::new();
                crate::text::push_char(&mut s, 'R');
                assert(s@ =~= seq!['R']);
                s
            }
            Gear::Neutral => {
                let mut s = String::new();
                crate::text::push_char(&mut s, 'N');
                assert(s@ =~= seq!['N']);
                s
            }
            Gear::Forward(value) => int_to_string(*value as i64),
            Gear::Unknown(value) => {
                let mut s = String::new();
                crate::text::push_char(&mut s, '?');
                crate::text::push_char(&mut s, '(');
                push_int(&mut s, *value as i64);
                crate::text::push_char(&mut s, ')');
                assert(s@ =~= gear_text_spec(*self));
                s
            }
        }
    }
}

/// The kind of session being run.
#[derive(Debug, Clone, Copy, PartialEq, Eq, Structural)]
pub enum SessionKind {
    TestDay,
    Practice,
    Qualifying,
    Warmup,
    Race,
    Unknown(i32),
}

/// Decoding of the raw session number: 0 test day, 1-4 practice,
/// 5-8 qualifying, 9 warmup, 10-13 race.
pub open spec fn session_kind_from_raw(value: i32) -> SessionKind {
    if value == 0 {
        SessionKind::TestDay
    } else if 1 <= value <= 4 {
        SessionKind::Practice
    } else if 5 <= value <= 8 {
        SessionKind::Qualifying
    } else if value == 9 {
        SessionKind::Warmup
    } else if 10 <= value <= 13 {
        SessionKind::Race
    } else {
        SessionKind::Unknown(value)
    }
}

impl From<i32> for SessionKind {
    fn from(value: i32) -> (kind: Self) {
        if value == 0 {
            SessionKind::TestDay
        } else if 1 <= value && value <= 4 {
            SessionKind::Practice
        } else if 5 <= value && value <= 8 {
            SessionKind::Qualifying
        } else if value == 9 {
            SessionKind::Warmup
        } else if 10 <= value && value <= 13 {
            SessionKind::Race
        } else {
            SessionKind::Unknown(value)
        }
    }
}

impl FromSpecImpl<i32> for SessionKind {
    open spec fn obeys_from_spec() -> bool {
        true
    }

    open spec fn from_spec(v: i32) -> Self {
        session_kind_from_raw(v)
    }
}

pub open spec fn session_kind_text_spec(kind: SessionKind) -> Seq<char> {
    match kind {
        SessionKind::TestDay => "test day"@,
        SessionKind::Practice => "practice"@,
        SessionKind::Qualifying => "qualifying"@,
        SessionKind::Warmup => "warmup"@,
        SessionKind::Race => "race"@,
        SessionKind::Unknown(v) => "unknown("@ + text::int_text(v as int) + ")"@,
    }
}

impl SessionKind {
    /// Display text of the session kind.
    pub fn text(&self) -> (s: String)
        ensures
            s@ == session_kind_text_spec(*self),
    {
        let mut s = String::new();
        match self {
            SessionKind::TestDay => push_str(&mut s, "test day"),
            SessionKind::Practice => push_str(&mut s, "practice"),
            SessionKind::Qualifying => push_str(&mut s, "qualifying"),
            SessionKind::Warmup => push_str(&mut s, "warmup"),
            SessionKind::Race => push_str(&mut s, "race"),
            SessionKind::Unknown(value) => {
                push_str(&mut s, "unknown(");
                push_int(&mut s, *value as i64);
                push_str(&mut s, ")");
            }
        }
        assert(s@ =~= session_kind_text_spec(*self));
        s
    }
}

/// The phase the session is in.
#[derive(Debug, Clone, Copy, PartialEq, Eq, Structural)]
pub enum GamePhase {
    BeforeSession,
    Reconnaissance,
    GridWalk,
    FormationLap,
    StartingLights,
    GreenFlag,
    FullCourseYellow,
    SessionStopped,
    SessionOver,
    Unknown(u8),
}

/// Decoding of the raw game phase: 0 through 8 in order, anything else unknown.
pub open spec fn game_phase_from_raw(value: u8) -> GamePhase {
    if value == 0 {
        GamePhase::BeforeSession
    } else if value == 1 {
        GamePhase::Reconnaissance
    } else if value == 2 {
        GamePhase::GridWalk
    } else if value == 3 {
        GamePhase::FormationLap
    } else if value == 4 {
        GamePhase::StartingLights
    } else if value == 5 {
        GamePhase::GreenFlag
    } else if value == 6 {
        GamePhase::FullCourseYellow
    } else if value == 7 {
        GamePhase::SessionStopped
    } else if value == 8 {
        GamePhase::SessionOver
    } else {
        GamePhase::Unknown(value)
    }
}

impl From<u8> for GamePhase {
    fn from(value: u8) -> (phase: Self) {
        match value {
            0 => GamePhase::BeforeSession,
            1 => GamePhase::Reconnaissance,
            2 => GamePhase::GridWalk,
            3 => GamePhase::FormationLap,
            4 => GamePhase::StartingLights,
            5 => GamePhase::GreenFlag,
            6 => GamePhase::FullCourseYellow,
            7 => GamePhase::SessionStopped,
            8 => GamePhase::SessionOver,
            other => GamePhase::Unknown(other),
        }
    }
}

impl FromSpecImpl<u8> for GamePhase {
    open spec fn obeys_from_spec() -> bool {
        true
    }

    open spec fn from_spec(v: u8) -> Self {
        game_phase_from_raw(v)
    }
}

pub open spec fn game_phase_text_spec(phase: GamePhase) -> Seq<char> {
    match phase {
        GamePhase::BeforeSession => "before session"@,
        GamePhase::Reconnaissance => "reconnaissance"@,
        GamePhase::GridWalk => "grid walk"@,
        GamePhase::FormationLap => "formation lap"@,
        GamePhase::StartingLights => "starting lights"@,
        GamePhase::GreenFlag => "green flag"@,
        GamePhase::FullCourseYellow => "full course yellow"@,
        GamePhase::SessionStopped => "session stopped"@,
        GamePhase::SessionOver => "session over"@,
        GamePhase::Unknown(v) => "unknown("@ + text::int_text(v as int) + ")"@,
    }
}

impl GamePhase {
    /// Display text of the game phase.
    pub fn text(&self) -> (s: String)
        ensures
            s@ == game_phase_text_spec(*self),
    {
        let mut s = String::new();
        match self {
            GamePhase::BeforeSession => push_str(&mut s, "before session"),
            GamePhase::Reconnaissance => push_str(&mut s, "reconnaissance"),
            GamePhase::GridWalk => push_str(&mut s, "grid walk"),
            GamePhase::FormationLap => push_str(&mut s, "formation lap"),
            GamePhase::StartingLights => push_str(&mut s, "starting lights"),
            GamePhase::GreenFlag => push_str(&mut s, "green flag"),
            GamePhase::FullCourseYellow => push_str(&mut s, "full course yellow"),
            GamePhase::SessionStopped => push_str(&mut s, "session stopped"),
            GamePhase::SessionOver => push_str(&mut s, "session over"),
            GamePhase::Unknown(value) => {
                push_str(&mut s, "unknown(");
                push_int(&mut s, *value as i64);
                push_str(&mut s, ")");
            }
        }
        assert(s@ =~= game_phase_text_spec(*self));
        s
    }
}

/// Session and car identity that accompanies every telemetry sample.
#[derive(Debug, Clone, PartialEq, Eq)]
pub struct TelemetryMetadata {
    pub track_name: Option<String>,
    pub track_layout: Option<String>,
    pub vehicle_name: Option<String>,
    pub vehicle_class: Option<String>,
    pub session_kind: SessionKind,
    pub game_phase: GamePhase,
    pub in_pits: bool,
    pub in_garage: bool,
    pub lap_invalidated: Option<bool>,
    pub player_slot_id: i32,
}

impl Default for TelemetryMetadata {
    fn default() -> (m: Self)
        ensures
            m.track_name is None,
            m.track_layout is None,
            m.vehicle_name is None,
            m.vehicle_class is None,
            m.session_kind == SessionKind::Unknown(-1i32),
            m.game_phase == GamePhase::Unknown(255u8),
            !m.in_pits,
            !m.in_garage,
            m.lap_invalidated is None,
            m.player_slot_id == -1,
    {
        TelemetryMetadata {
            track_name: None,
            track_layout: None,
            vehicle_name: None,
            vehicle_class: None,
            session_kind: SessionKind::Unknown(-1),
            game_phase: GamePhase::Unknown(u8::MAX),
            in_pits: false,
            in_garage: false,
            lap_invalidated: None,
            player_slot_id: -1,
        }
    }
}

/// Why a telemetry sample could not be read.
#[derive(Debug, Clone, Copy, PartialEq, Eq, Structural)]
pub enum TelemetryError {
    UnsupportedPlatform,
    MappingFailed,
    BufferTooSmall,
    TornFrame,
}

pub open spec fn telemetry_error_text_spec(error: TelemetryError) -> Seq<char> {
    match error {
        TelemetryError::UnsupportedPlatform => "shared memory reading is only supported on Windows"@,
        TelemetryError::MappingFailed => "could not map the telemetry shared memory buffer"@,
        TelemetryError::BufferTooSmall => "telemetry shared memory buffer is smaller than expected"@,
        TelemetryError::TornFrame => "telemetry frame changed while it was being read"@,
    }
}

impl TelemetryError {
    /// The message shown for this error.
    pub fn text(&self) -> (s: String)
        ensures
            s@ == telemetry_error_text_spec(*self),
    {
        let mut s = String::new();
        match self {
            TelemetryError::UnsupportedPlatform => push_str(&mut s, "shared memory reading is only supported on Windows"),
            TelemetryError::MappingFailed => push_str(&mut s, "could not map the telemetry shared memory buffer"),
            TelemetryError::BufferTooSmall => push_str(&mut s, "telemetry shared memory buffer is smaller than expected"),
            TelemetryError::TornFrame => push_str(&mut s, "telemetry frame changed while it was being read"),
        }
        assert(s@ =~= telemetry_error_text_spec(*self));
        s
    }
}

} // verus!
