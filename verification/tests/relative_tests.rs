use hashoverlay::relative::{field_neighbor, player_position, proximity_order, sort_proximity_keys};

fn key(delta: f64, index: usize) -> (u8, u64, usize) {
    let group = if delta > 0.0 { 0 } else if delta < 0.0 { 2 } else { 1 };
    (group, delta.abs().to_bits(), index)
}

#[test]
fn orders_cars_across_start_finish_by_track_gap() {
    // The player is at 100 m; a car at 4 900 m on the same lap is 200 m
    // behind across the line, one at 2 000 m is 1 900 m ahead.
    let keys = vec![key(-200.0, 0), key(0.0, 1), key(1_900.0, 2)];
    assert_eq!(proximity_order(&keys), vec![2, 1, 0]);
}

#[test]
fn nearer_cars_come_first_within_a_group() {
    let keys = vec![key(30.0, 0), key(10.0, 1), key(-5.0, 2), key(-50.0, 3), key(10.0, 4), key(0.0, 5)];
    assert_eq!(proximity_order(&keys), vec![1, 4, 0, 5, 2, 3]);
    let sorted = sort_proximity_keys(&keys);
    assert_eq!(sorted.len(), keys.len());
    assert!(sorted.windows(2).all(|w| w[0] <= w[1]));
}

#[test]
fn empty_field_has_empty_order() {
    assert_eq!(proximity_order(&Vec::new()), Vec::<usize>::new());
}

#[test]
fn player_is_found_by_flag_or_slot() {
    let cars = vec![(7, false), (9, false), (3, true)];
    assert_eq!(player_position(&cars, 9), Some(1));
    assert_eq!(player_position(&cars, 42), Some(2));
    assert_eq!(player_position(&vec![(7, false)], 42), None);
}

#[test]
fn neighbours_share_the_players_lap_and_have_a_gap() {
    let cars = vec![
        (Some(4), 12, true),
        (Some(5), 12, true),
        (Some(6), 11, true),
        (Some(6), 12, false),
        (Some(6), 12, true),
    ];
    assert_eq!(field_neighbor(&cars, 5, 12, -1), Some(0));
    assert_eq!(field_neighbor(&cars, 5, 12, 1), Some(4));
    assert_eq!(field_neighbor(&cars, 5, 12, 2), None);
}
