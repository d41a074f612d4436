use hashoverlay::raw::{self, scoring, session, telemetry, wheel};
use hashoverlay::shared_memory::{ensure_same_frame, FrameMarker};
use hashoverlay::telemetry::{GamePhase, Gear, SessionKind, TelemetryError};

#[test]
fn layout_sizes_match_mit_reference() {
    assert_eq!(raw::VEHICLE_TELEMETRY_SIZE, 1_888);
    assert_eq!(raw::VEHICLE_SCORING_SIZE, 584);
    assert_eq!(raw::SCORING_INFO_SIZE, 548);
    assert_eq!(raw::LMU_DATA_SIZE, 324_820);
}

#[test]
fn critical_offsets_match_mit_reference() {
    assert_eq!(telemetry::RPM, 356);
    assert_eq!(telemetry::FUEL, 524);
    assert_eq!(telemetry::WORLD_POSITION, 160);
    assert_eq!(telemetry::LOCAL_VELOCITY, 184);
    assert_eq!(telemetry::ENGINE_TORQUE, 592);
    assert_eq!(telemetry::FUEL_CAPACITY, 608);
    assert_eq!(telemetry::LAP_INVALIDATED, 745);
    assert_eq!(telemetry::WHEELS, 848);
    assert_eq!(wheel::WEAR, 152);
    assert_eq!(wheel::CARCASS_TEMP, 204);
    assert_eq!(wheel::INNER_TEMP, 212);
    assert_eq!(scoring::DRIVER_NAME, 4);
    assert_eq!(scoring::FINISH_STATUS, 103);
    assert_eq!(scoring::WORLD_POSITION, 264);
    assert_eq!(scoring::BEST_LAP, 144);
    assert_eq!(session::CURRENT_ET, 68);
}

#[test]
fn maps_gear_values() {
    assert_eq!(Gear::from(-1), Gear::Reverse);
    assert_eq!(Gear::from(0), Gear::Neutral);
    assert_eq!(Gear::from(6), Gear::Forward(6));
    assert_eq!(Gear::from(123), Gear::Unknown(123));
}

#[test]
fn maps_session_and_game_phase_values() {
    assert_eq!(SessionKind::from(2), SessionKind::Practice);
    assert_eq!(SessionKind::from(7), SessionKind::Qualifying);
    assert_eq!(SessionKind::from(12), SessionKind::Race);
    assert_eq!(GamePhase::from(5), GamePhase::GreenFlag);
    assert_eq!(GamePhase::from(8), GamePhase::SessionOver);
}

#[test]
fn detects_torn_frame_markers() {
    let before = FrameMarker {
        game_version: 1,
        session_time_bits: 10.0f64.to_bits(),
        active_vehicles: 1,
        scoring_vehicles: 1,
        player_index: 0,
        player_has_vehicle: true,
    };
    let after = FrameMarker {
        session_time_bits: 10.1f64.to_bits(),
        ..before
    };

    assert!(matches!(
        ensure_same_frame(before, after),
        Err(TelemetryError::TornFrame)
    ));
}
