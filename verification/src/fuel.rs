//! The lap bookkeeping of the fuel estimate: when a lap starts and closes,
//! and whether a closed lap is clean enough for its fuel use to count.

use vstd::prelude::*;

verus! {

/// What the fuel estimate learns of one telemetry sample. The fractional
/// comparisons are made by the caller: `fuel_rose` says the fuel level rose
/// by more than the refuelling noise since the previous reading (after a
/// start-over there is no previous reading, and it is not counted), and
/// `new_session` that the session marker changed or the clock ran back.
#[derive(Debug, Clone, Copy, PartialEq, Eq, Structural)]
pub struct FuelObservation {
    pub lap_number: i32,
    pub lap_invalidated: bool,
    pub in_pits: bool,
    pub in_garage: bool,
    pub fuel_rose: bool,
    pub new_session: bool,
}

/// What happened to the lap being measured.
#[derive(Debug, Clone, Copy, PartialEq, Eq, Structural)]
pub enum FuelLapStep {
    /// A first lap started: its fuel reading is the lap's start.
    Started,
    /// The same lap goes on.
    Continued,
    /// The lap closed and the next one started; a clean lap's fuel use
    /// counts when the readings also make sense.
    Closed { clean: bool },
}

/// The lap being measured and what happened during it so far.
#[derive(Debug, Clone, Copy, PartialEq, Eq, Structural)]
pub struct FuelLapTracker {
    pub lap_number: Option<i32>,
    pub lap_invalidated: bool,
    pub entered_pits: bool,
    pub entered_garage: bool,
    pub refueled: bool,
}

/// The tracker before any sample, and after a reset.
pub open spec fn fresh_tracker() -> FuelLapTracker {
    FuelLapTracker { lap_number: None, lap_invalidated: false, entered_pits: false, entered_garage: false, refueled: false }
}

/// A sample starts over: a new session, or a lap number that went down.
pub open spec fn resets(t: FuelLapTracker, o: FuelObservation) -> bool {
    o.new_session || (t.lap_number matches Some(p) && o.lap_number < p)
}

/// A lap is clean when nothing that spoils a fuel reading happened in it,
/// the closing sample included.
pub open spec fn closing_clean(t: FuelLapTracker, o: FuelObservation) -> bool {
    !(t.lap_invalidated || o.lap_invalidated) && !(t.entered_pits || o.in_pits)
        && !(t.entered_garage || o.in_garage) && !(t.refueled || o.fuel_rose)
}

/// The tracker the sample finds: fresh after a reset.
pub open spec fn base_of(t: FuelLapTracker, o: FuelObservation) -> FuelLapTracker {
    if resets(t, o) { fresh_tracker() } else { t }
}

pub open spec fn step_spec(t: FuelLapTracker, o: FuelObservation) -> FuelLapStep {
    let b = base_of(t, o);
    match b.lap_number {
        None => FuelLapStep::Started,
        Some(l) => if l == o.lap_number { FuelLapStep::Continued } else { FuelLapStep::Closed { clean: closing_clean(b, o) } },
    }
}

pub open spec fn tracker_after(t: FuelLapTracker, o: FuelObservation) -> FuelLapTracker {
    let b = base_of(t, o);
    let carried = match step_spec(t, o) {
        FuelLapStep::Closed { .. } => fresh_tracker(),
        _ => b,
    };
    FuelLapTracker {
        lap_number: Some(o.lap_number),
        lap_invalidated: carried.lap_invalidated || o.lap_invalidated,
        entered_pits: carried.entered_pits || o.in_pits,
        entered_garage: carried.entered_garage || o.in_garage,
        refueled: carried.refueled || (o.fuel_rose && !resets(t, o)),
    }
}

impl FuelLapTracker {
    pub fn new() -> (t: Self)
        ensures
            t == fresh_tracker(),
    {
        FuelLapTracker { lap_number: None, lap_invalidated: false, entered_pits: false, entered_garage: false, refueled: false }
    }

    /// Takes in one sample: reports whether the estimate starts over (then
    /// the fuel history is dropped) and what happened to the lap.
    pub fn observe(&mut self, o: FuelObservation) -> (r: (bool, FuelLapStep))
        ensures
            r.0 == resets(*old(self), o),
            r.1 == step_spec(*old(self), o),
            *final(self) == tracker_after(*old(self), o),
    {
        let reset = o.new_session || match self.lap_number {
            Some(p) => o.lap_number < p,
            None => false,
        };
        if reset {
            *self = FuelLapTracker::new();
        }
        let step = match self.lap_number {
            None => FuelLapStep::Started,
            Some(l) => {
                if l == o.lap_number {
                    FuelLapStep::Continued
                } else {
                    let clean = !(self.lap_invalidated || o.lap_invalidated) && !(self.entered_pits || o.in_pits)
                        && !(self.entered_garage || o.in_garage) && !(self.refueled || o.fuel_rose);
                    *self = FuelLapTracker::new();
                    FuelLapStep::Closed { clean }
                }
            },
        };
        self.lap_number = Some(o.lap_number);
        self.lap_invalidated = self.lap_invalidated || o.lap_invalidated;
        self.entered_pits = self.entered_pits || o.in_pits;
        self.entered_garage = self.entered_garage || o.in_garage;
        self.refueled = self.refueled || (o.fuel_rose && !reset);
        (reset, step)
    }
}

/// The tracker after the samples `obs`, in order.
pub open spec fn tracker_after_all(t: FuelLapTracker, obs: Seq<FuelObservation>) -> FuelLapTracker
    decreases obs.len(),
{
    if obs.len() == 0 { t } else { tracker_after(tracker_after_all(t, obs.drop_last()), obs.last()) }
}

/// Whether a sample spoils the fuel reading of the lap it belongs to.
pub open spec fn spoils(o: FuelObservation) -> bool {
    o.lap_invalidated || o.in_pits || o.in_garage || o.fuel_rose
}

/// Whether the tracker has seen something that spoils the lap.
pub open spec fn spoiled(t: FuelLapTracker) -> bool {
    t.lap_invalidated || t.entered_pits || t.entered_garage || t.refueled
}

proof fn lemma_same_lap_keeps_spoiled(t: FuelLapTracker, obs: Seq<FuelObservation>, lap: i32)
    requires
        t.lap_number == Some(lap),
        forall|i: int| 0 <= i < obs.len() ==> (#[trigger] obs[i]).lap_number == lap && !obs[i].new_session,
    ensures
        tracker_after_all(t, obs).lap_number == Some(lap),
        spoiled(tracker_after_all(t, obs)) == (spoiled(t) || exists|i: int| 0 <= i < obs.len() && spoils(#[trigger] obs[i])),
    decreases obs.len(),
{
    if obs.len() > 0 {
        let front = obs.drop_last();
        lemma_same_lap_keeps_spoiled(t, front, lap);
        assert forall|i: int| 0 <= i < front.len() implies spoils(#[trigger] front[i]) == spoils(obs[i]) by {}
        if spoils(obs.last()) {
            assert(spoils(obs[obs.len() - 1]));
        }
        if exists|i: int| 0 <= i < obs.len() && spoils(#[trigger] obs[i]) {
            let i = choose|i: int| 0 <= i < obs.len() && spoils(#[trigger] obs[i]);
            if i < obs.len() - 1 {
                assert(spoils(front[i]));
            }
        }
    }
}

/// A lap is never counted when anything spoiled it at any point: once the
/// lap has started, whatever samples of the same lap follow, a sample that
/// invalidated the lap, was in the pits or the garage, or showed a refuel
/// makes the lap close unclean.
pub proof fn lemma_spoiled_lap_never_counts(t: FuelLapTracker, obs: Seq<FuelObservation>, closing: FuelObservation, lap: i32)
    requires
        t.lap_number == Some(lap),
        forall|i: int| 0 <= i < obs.len() ==> (#[trigger] obs[i]).lap_number == lap && !obs[i].new_session,
        spoiled(t) || exists|i: int| 0 <= i < obs.len() && spoils(#[trigger] obs[i]),
        closing.lap_number > lap,
        !closing.new_session,
    ensures
        step_spec(tracker_after_all(t, obs), closing) == (FuelLapStep::Closed { clean: false }),
{
    lemma_same_lap_keeps_spoiled(t, obs, lap);
}

/// A lap in which nothing spoiled the reading closes clean.
pub proof fn lemma_clean_lap_counts(t: FuelLapTracker, obs: Seq<FuelObservation>, closing: FuelObservation, lap: i32)
    requires
        t.lap_number == Some(lap),
        !spoiled(t),
        forall|i: int| 0 <= i < obs.len() ==> (#[trigger] obs[i]).lap_number == lap && !obs[i].new_session && !spoils(obs[i]),
        closing.lap_number > lap,
        !closing.new_session,
        !spoils(closing),
    ensures
        step_spec(tracker_after_all(t, obs), closing) == (FuelLapStep::Closed { clean: true }),
{
    lemma_same_lap_keeps_spoiled(t, obs, lap);
}


/// A new session, or a lap number that went down, starts the measurement
/// over: the sample starts a first lap, nothing earlier is carried into it,
/// and a fuel rise at that moment is not taken for a refuel. A sample of the
/// same lap continues it; a later lap closes it.
pub proof fn lemma_session_change_starts_over(t: FuelLapTracker, o: FuelObservation)
    ensures
        (o.new_session || (t.lap_number is Some && o.lap_number < t.lap_number->0)) ==> {
            &&& step_spec(t, o) == FuelLapStep::Started
            &&& tracker_after(t, o) == (FuelLapTracker {
                lap_number: Some(o.lap_number),
                lap_invalidated: o.lap_invalidated,
                entered_pits: o.in_pits,
                entered_garage: o.in_garage,
                refueled: false,
            })
        },
        (!o.new_session && t.lap_number == Some(o.lap_number)) ==> step_spec(t, o) == FuelLapStep::Continued,
        (!o.new_session && t.lap_number is Some && o.lap_number > t.lap_number->0) ==> step_spec(t, o) is Closed,
        (!o.new_session && t.lap_number is None) ==> step_spec(t, o) == FuelLapStep::Started,
{
}

} // verus!
