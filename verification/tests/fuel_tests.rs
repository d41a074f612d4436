use hashoverlay::fuel::{FuelLapStep, FuelLapTracker, FuelObservation};

fn obs(lap: i32) -> FuelObservation {
    FuelObservation { lap_number: lap, lap_invalidated: false, in_pits: false, in_garage: false, fuel_rose: false, new_session: false }
}

#[test]
fn clean_laps_close_clean() {
    let mut tracker = FuelLapTracker::new();
    assert_eq!(tracker.observe(obs(1)), (false, FuelLapStep::Started));
    assert_eq!(tracker.observe(obs(1)), (false, FuelLapStep::Continued));
    assert_eq!(tracker.observe(obs(2)), (false, FuelLapStep::Closed { clean: true }));
}

#[test]
fn pits_anywhere_in_the_lap_spoil_it() {
    let mut tracker = FuelLapTracker::new();
    tracker.observe(obs(1));
    tracker.observe(FuelObservation { in_pits: true, ..obs(1) });
    tracker.observe(obs(1));
    assert_eq!(tracker.observe(obs(2)), (false, FuelLapStep::Closed { clean: false }));
    assert_eq!(tracker.observe(obs(3)), (false, FuelLapStep::Closed { clean: true }));
}

#[test]
fn invalidation_on_the_closing_sample_spoils_the_lap() {
    let mut tracker = FuelLapTracker::new();
    tracker.observe(obs(1));
    let closing = FuelObservation { lap_invalidated: true, ..obs(2) };
    assert_eq!(tracker.observe(closing), (false, FuelLapStep::Closed { clean: false }));
    assert_eq!(tracker.observe(obs(3)), (false, FuelLapStep::Closed { clean: false }));
}

#[test]
fn refuel_and_garage_spoil_the_lap() {
    let mut tracker = FuelLapTracker::new();
    tracker.observe(obs(1));
    tracker.observe(FuelObservation { fuel_rose: true, ..obs(1) });
    assert_eq!(tracker.observe(obs(2)), (false, FuelLapStep::Closed { clean: false }));
    tracker.observe(FuelObservation { in_garage: true, ..obs(2) });
    assert_eq!(tracker.observe(obs(3)), (false, FuelLapStep::Closed { clean: false }));
}

#[test]
fn session_change_or_lap_going_back_starts_over() {
    let mut tracker = FuelLapTracker::new();
    tracker.observe(obs(3));
    assert_eq!(tracker.observe(FuelObservation { new_session: true, ..obs(3) }), (true, FuelLapStep::Started));
    assert_eq!(tracker.observe(obs(1)), (true, FuelLapStep::Started));
    assert_eq!(tracker.lap_number, Some(1));
}

#[test]
fn a_fuel_rise_at_a_start_over_is_not_a_refuel() {
    let mut tracker = FuelLapTracker::new();
    tracker.observe(obs(4));
    assert_eq!(tracker.observe(FuelObservation { fuel_rose: true, new_session: true, ..obs(1) }), (true, FuelLapStep::Started));
    assert_eq!(tracker.observe(obs(2)), (false, FuelLapStep::Closed { clean: true }));
}
