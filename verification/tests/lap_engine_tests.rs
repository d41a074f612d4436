use hashoverlay::lap_engine::{
    reference_mode_from_name, selected_reference, BestLapKeys, PerformanceMode, ReferenceMode,
};

fn key(seconds: f64) -> Option<u64> {
    Some(seconds.to_bits())
}

#[test]
fn replaces_session_and_personal_best_when_lap_changes() {
    let mut bests = BestLapKeys { session_best: None, personal_best: None };
    let finish = bests.finish_lap(true, 2, 2, key(90.0));
    assert!(finish.kept && finish.new_session_best && finish.new_personal_best);
    assert_eq!(bests.session_best, key(90.0));
    assert_eq!(bests.personal_best, key(90.0));

    let slower = bests.finish_lap(true, 5, 2, key(95.0));
    assert!(slower.kept && !slower.new_session_best && !slower.new_personal_best);
    assert_eq!(bests.session_best, key(90.0));
}

#[test]
fn does_not_save_invalid_laps_as_best_references() {
    let mut bests = BestLapKeys { session_best: None, personal_best: None };
    let finish = bests.finish_lap(false, 2, 2, key(90.0));
    assert!(!finish.kept && !finish.new_session_best && !finish.new_personal_best);
    assert_eq!(bests, BestLapKeys { session_best: None, personal_best: None });

    let short = bests.finish_lap(true, 1, 2, key(90.0));
    assert!(!short.kept);
    let unusable = bests.finish_lap(true, 9, 2, None);
    assert!(!unusable.kept);
}

#[test]
fn a_faster_lap_beats_only_the_bests_it_improves() {
    let mut bests = BestLapKeys { session_best: key(100.0), personal_best: key(80.0) };
    let finish = bests.finish_lap(true, 3, 2, key(90.0));
    assert!(finish.new_session_best && !finish.new_personal_best);
    assert_eq!(bests, BestLapKeys { session_best: key(90.0), personal_best: key(80.0) });
}

#[test]
fn reference_falls_back_in_mode_order() {
    assert_eq!(selected_reference(ReferenceMode::PersonalBest, None, Some(2), Some(3)), Some(2));
    assert_eq!(selected_reference(ReferenceMode::SessionBest, Some(1), None, Some(3)), Some(1));
    assert_eq!(selected_reference(ReferenceMode::LastLap, Some(1), Some(2), Some(3)), Some(3));
    assert_eq!(selected_reference::<u8>(ReferenceMode::BestValidLap, None, None, None), None);
}

#[test]
fn reference_mode_names() {
    assert_eq!(reference_mode_from_name("last_lap"), ReferenceMode::LastLap);
    assert_eq!(reference_mode_from_name("best_valid_lap"), ReferenceMode::BestValidLap);
    assert_eq!(reference_mode_from_name("session_best"), ReferenceMode::SessionBest);
    assert_eq!(reference_mode_from_name("anything"), ReferenceMode::PersonalBest);
}

#[test]
fn performance_modes_set_rates() {
    assert_eq!(PerformanceMode::Eco.telemetry_hz(), 50);
    assert_eq!(PerformanceMode::Normal.telemetry_hz(), 100);
    assert_eq!(PerformanceMode::HighRefresh.render_fps(), 120);
    assert_eq!(PerformanceMode::Eco.render_fps(), 30);
}
