//! Lap-reference choices: which stored lap is compared against, and the
//! acquisition and render rates of the performance modes.

use vstd::prelude::*;
use crate::text::str_eq;

verus! {

/// Which lap the live delta compares against.
#[derive(Debug, Clone, Copy, PartialEq, Eq, Structural)]
pub enum ReferenceMode {
    PersonalBest,
    SessionBest,
    BestValidLap,
    LastLap,
}

/// The overlay's update-rate profile.
#[derive(Debug, Clone, Copy, PartialEq, Eq, Structural)]
pub enum PerformanceMode {
    Eco,
    Normal,
    HighRefresh,
}

/// Telemetry samples per second of a performance mode.
pub open spec fn telemetry_hz_of(mode: PerformanceMode) -> u64 {
    match mode {
        PerformanceMode::Eco => 50u64,
        _ => 100u64,
    }
}

/// Frames rendered per second in a performance mode.
pub open spec fn render_fps_of(mode: PerformanceMode) -> u64 {
    match mode {
        PerformanceMode::Eco => 30u64,
        PerformanceMode::Normal => 60u64,
        PerformanceMode::HighRefresh => 120u64,
    }
}

impl PerformanceMode {
    /// Telemetry samples per second.
    pub fn telemetry_hz(self) -> (hz: u64)
        ensures
            hz == telemetry_hz_of(self),
    {
        match self {
            PerformanceMode::Eco => 50,
            PerformanceMode::Normal | PerformanceMode::HighRefresh => 100,
        }
    }

    /// Frames rendered per second.
    pub fn render_fps(self) -> (fps: u64)
        ensures
            fps == render_fps_of(self),
    {
        match self {
            PerformanceMode::Eco => 30,
            PerformanceMode::Normal => 60,
            PerformanceMode::HighRefresh => 120,
        }
    }
}

/// The reference lap used for a mode: the mode's own lap when there is one,
/// otherwise the other laps in a fixed fallback order.
pub open spec fn selected_reference_spec<T>(mode: ReferenceMode, personal_best: Option<T>, session_best: Option<T>, last_lap: Option<T>) -> Option<T> {
    let first_of = |a: Option<T>, b: Option<T>, c: Option<T>| if a is Some { a } else if b is Some { b } else { c };
    match mode {
        ReferenceMode::PersonalBest => first_of(personal_best, session_best, last_lap),
        ReferenceMode::SessionBest | ReferenceMode::BestValidLap => first_of(session_best, personal_best, last_lap),
        ReferenceMode::LastLap => first_of(last_lap, session_best, personal_best),
    }
}

fn first_present<T>(a: Option<T>, b: Option<T>, c: Option<T>) -> (r: Option<T>)
    ensures
        r == (if a is Some { a } else if b is Some { b } else { c }),
{
    match a {
        Some(x) => Some(x),
        None => match b {
            Some(y) => Some(y),
            None => c,
        },
    }
}

/// Picks the reference lap for `mode` among the personal best, the session
/// best and the last lap.
pub fn selected_reference<T>(mode: ReferenceMode, personal_best: Option<T>, session_best: Option<T>, last_lap: Option<T>) -> (r: Option<T>)
    ensures
        r == selected_reference_spec(mode, personal_best, session_best, last_lap),
{
    match mode {
        ReferenceMode::PersonalBest => first_present(personal_best, session_best, last_lap),
        ReferenceMode::SessionBest | ReferenceMode::BestValidLap => first_present(session_best, personal_best, last_lap),
        ReferenceMode::LastLap => first_present(last_lap, session_best, personal_best),
    }
}

/// Which lap is the reference: each mode takes its own lap first: the
/// personal best in personal-best mode, the session best in session-best
/// and best-valid-lap modes, the last lap in last-lap mode. Without it,
/// the personal-best and last-lap modes fall back to the session best, the
/// session-best modes to the personal best; then the remaining lap.
pub proof fn lemma_reference_priority<T>(mode: ReferenceMode, personal_best: Option<T>, session_best: Option<T>, last_lap: Option<T>)
    ensures
        ({
            let r = selected_reference_spec(mode, personal_best, session_best, last_lap);
            &&& (mode == ReferenceMode::PersonalBest && personal_best is Some ==> r == personal_best)
            &&& (mode == ReferenceMode::PersonalBest && personal_best is None && session_best is Some ==> r == session_best)
            &&& (mode == ReferenceMode::PersonalBest && personal_best is None && session_best is None ==> r == last_lap)
            &&& ((mode == ReferenceMode::SessionBest || mode == ReferenceMode::BestValidLap) && session_best is Some
                ==> r == session_best)
            &&& ((mode == ReferenceMode::SessionBest || mode == ReferenceMode::BestValidLap) && session_best is None
                && personal_best is Some ==> r == personal_best)
            &&& ((mode == ReferenceMode::SessionBest || mode == ReferenceMode::BestValidLap) && session_best is None
                && personal_best is None ==> r == last_lap)
            &&& (mode == ReferenceMode::LastLap && last_lap is Some ==> r == last_lap)
            &&& (mode == ReferenceMode::LastLap && last_lap is None && session_best is Some ==> r == session_best)
            &&& (mode == ReferenceMode::LastLap && last_lap is None && session_best is None ==> r == personal_best)
        }),
{
}

/// A reference is found whenever any lap is available, whatever the mode.
pub proof fn lemma_reference_found_when_any_lap<T>(mode: ReferenceMode, personal_best: Option<T>, session_best: Option<T>, last_lap: Option<T>)
    ensures
        (personal_best is Some || session_best is Some || last_lap is Some)
            <==> selected_reference_spec(mode, personal_best, session_best, last_lap) is Some,
{
}

/// The reference mode a configuration name selects; unknown names select
/// the personal best.
pub open spec fn reference_mode_spec(name: Seq<char>) -> ReferenceMode {
    if name == "session_best"@ {
        ReferenceMode::SessionBest
    } else if name == "best_valid_lap"@ {
        ReferenceMode::BestValidLap
    } else if name == "last_lap"@ {
        ReferenceMode::LastLap
    } else {
        ReferenceMode::PersonalBest
    }
}

/// Reads a reference mode from its configuration name.
pub fn reference_mode_from_name(name: &str) -> (mode: ReferenceMode)
    ensures
        mode == reference_mode_spec(name@),
{
    if str_eq(name, "session_best") {
        ReferenceMode::SessionBest
    } else if str_eq(name, "best_valid_lap") {
        ReferenceMode::BestValidLap
    } else if str_eq(name, "last_lap") {
        ReferenceMode::LastLap
    } else {
        ReferenceMode::PersonalBest
    }
}


/// The time keys of the best laps kept. A key is the bit pattern of a lap's
/// total time, a positive finite `f64`; for such values the bit patterns
/// order as the times do, so a smaller key is a faster lap.
#[derive(Debug, Clone, Copy, PartialEq, Eq, Structural)]
pub struct BestLapKeys {
    pub session_best: Option<u64>,
    pub personal_best: Option<u64>,
}

/// What finishing a lap changes: whether the lap is kept as the last lap,
/// and whether it replaces the session best and the personal best.
#[derive(Debug, Clone, Copy, PartialEq, Eq, Structural)]
pub struct LapFinish {
    pub kept: bool,
    pub new_session_best: bool,
    pub new_personal_best: bool,
}

/// Whether a lap with key `candidate` beats the lap kept as `current`.
pub open spec fn improves(current: Option<u64>, candidate: u64) -> bool {
    match current {
        Some(c) => candidate < c,
        None => true,
    }
}

/// A finished lap is kept when it stayed valid throughout, recorded at
/// least `min_points` points and made a reference lap (`lap_key` present).
pub open spec fn lap_kept(lap_valid: bool, point_count: nat, min_points: nat, lap_key: Option<u64>) -> bool {
    lap_valid && point_count >= min_points && lap_key is Some
}

/// The outcome of finishing a lap.
pub open spec fn finish_outcome(keys: BestLapKeys, lap_valid: bool, point_count: nat, min_points: nat, lap_key: Option<u64>) -> LapFinish {
    let kept = lap_kept(lap_valid, point_count, min_points, lap_key);
    LapFinish {
        kept,
        new_session_best: kept && improves(keys.session_best, lap_key->0),
        new_personal_best: kept && improves(keys.personal_best, lap_key->0),
    }
}

/// The best-lap keys after finishing a lap.
pub open spec fn keys_after_finish(keys: BestLapKeys, lap_valid: bool, point_count: nat, min_points: nat, lap_key: Option<u64>) -> BestLapKeys {
    let f = finish_outcome(keys, lap_valid, point_count, min_points, lap_key);
    BestLapKeys {
        session_best: if f.new_session_best { lap_key } else { keys.session_best },
        personal_best: if f.new_personal_best { lap_key } else { keys.personal_best },
    }
}

fn improves_exec(current: Option<u64>, candidate: u64) -> (r: bool)
    ensures
        r == improves(current, candidate),
{
    match current {
        Some(c) => candidate < c,
        None => true,
    }
}

impl BestLapKeys {
    /// Finishes a lap: a kept lap replaces each best it beats.
    pub fn finish_lap(&mut self, lap_valid: bool, point_count: usize, min_points: usize, lap_key: Option<u64>) -> (f: LapFinish)
        ensures
            f == finish_outcome(*old(self), lap_valid, point_count as nat, min_points as nat, lap_key),
            *final(self) == keys_after_finish(*old(self), lap_valid, point_count as nat, min_points as nat, lap_key),
    {
        let kept = lap_valid && point_count >= min_points && lap_key.is_some();
        let mut f = LapFinish { kept, new_session_best: false, new_personal_best: false };
        if let Some(key) = lap_key {
            if kept {
                if improves_exec(self.session_best, key) {
                    self.session_best = Some(key);
                    f.new_session_best = true;
                }
                if improves_exec(self.personal_best, key) {
                    self.personal_best = Some(key);
                    f.new_personal_best = true;
                }
            }
        }
        f
    }
}

/// Finishing a lap never makes a kept best slower, and after a kept lap
/// each best is at least as fast as that lap.
pub proof fn lemma_bests_only_improve(keys: BestLapKeys, lap_valid: bool, point_count: nat, min_points: nat, lap_key: Option<u64>)
    ensures
        ({
            let after = keys_after_finish(keys, lap_valid, point_count, min_points, lap_key);
            &&& (keys.session_best matches Some(o) ==> after.session_best matches Some(n) && n <= o)
            &&& (keys.personal_best matches Some(o) ==> after.personal_best matches Some(n) && n <= o)
            &&& (lap_kept(lap_valid, point_count, min_points, lap_key) ==>
                    (after.session_best matches Some(n) && n <= lap_key->0)
                    && (after.personal_best matches Some(n) && n <= lap_key->0))
        }),
{
}

/// A lap that was not valid throughout, or recorded too few points, leaves
/// the session and personal bests as they were and is not kept.
pub proof fn lemma_invalid_lap_changes_nothing(keys: BestLapKeys, lap_valid: bool, point_count: nat, min_points: nat, lap_key: Option<u64>)
    requires
        !lap_valid || point_count < min_points,
    ensures
        keys_after_finish(keys, lap_valid, point_count, min_points, lap_key) == keys,
        !finish_outcome(keys, lap_valid, point_count, min_points, lap_key).kept,
{
}


/// Finishing a kept lap leaves each best at the faster of the old best and
/// the lap, and reports a new best exactly when the lap is strictly faster
/// (or there was none); a lap that is not kept changes nothing and reports
/// nothing.
pub proof fn lemma_finish_keeps_the_faster(keys: BestLapKeys, lap_valid: bool, point_count: nat, min_points: nat, lap_key: Option<u64>)
    ensures
        ({
            let after = keys_after_finish(keys, lap_valid, point_count, min_points, lap_key);
            let f = finish_outcome(keys, lap_valid, point_count, min_points, lap_key);
            &&& f.kept <==> (lap_valid && point_count >= min_points && lap_key is Some)
            &&& (!f.kept ==> after == keys && !f.new_session_best && !f.new_personal_best)
            &&& (f.kept ==> {
                let lap = lap_key->0;
                &&& (f.new_session_best <==> (keys.session_best is None || lap < keys.session_best->0))
                &&& (f.new_personal_best <==> (keys.personal_best is None || lap < keys.personal_best->0))
                &&& after.session_best == Some(if keys.session_best is Some && keys.session_best->0 <= lap { keys.session_best->0 } else { lap })
                &&& after.personal_best == Some(if keys.personal_best is Some && keys.personal_best->0 <= lap { keys.personal_best->0 } else { lap })
            })
        }),
{
}

/// The configuration names of the reference modes: `session_best`,
/// `best_valid_lap` and `last_lap` select their modes; every other name,
/// `personal_best` among them, selects the personal best.
pub proof fn lemma_reference_mode_names(name: Seq<char>)
    ensures
        reference_mode_spec(name) == ReferenceMode::SessionBest <==> name == "session_best"@,
        reference_mode_spec(name) == ReferenceMode::BestValidLap <==> name == "best_valid_lap"@,
        reference_mode_spec(name) == ReferenceMode::LastLap <==> name == "last_lap"@,
        reference_mode_spec(name) == ReferenceMode::PersonalBest
            <==> !(name == "session_best"@ || name == "best_valid_lap"@ || name == "last_lap"@),
{
    reveal_strlit("session_best");
    reveal_strlit("best_valid_lap");
    reveal_strlit("last_lap");
    assert("session_best"@.len() == 12);
    assert("best_valid_lap"@.len() == 14);
    assert("last_lap"@.len() == 8);
}

} // verus!
