use hashoverlay::standings::{class_order, relative_listing, standings_listing, ClassifiedCar};

fn car(slot_id: i32, place: Option<i32>, class: &str, is_player: bool) -> ClassifiedCar {
    ClassifiedCar { slot_id, is_player, place, vehicle_class: Some(class.to_string()) }
}

fn field() -> Vec<ClassifiedCar> {
    vec![
        car(1, Some(3), "GT3", false),
        car(2, Some(1), "Hypercar", false),
        car(3, None, "Hypercar", false),
        car(4, Some(2), "Hypercar", true),
        car(5, Some(4), "Hypercar", false),
        car(6, Some(2), "GT3", false),
    ]
}

#[test]
fn lists_cars_by_place_with_unplaced_cars_last() {
    assert_eq!(class_order(&field(), 4, false), vec![1, 3, 5, 0, 4, 2]);
}

#[test]
fn same_class_listing_keeps_the_players_class() {
    assert_eq!(class_order(&field(), 4, true), vec![1, 3, 4, 2]);
}

#[test]
fn standings_rows_are_clamped() {
    assert_eq!(standings_listing(&field(), 4, false, 2), vec![1, 3]);
    assert_eq!(standings_listing(&field(), 4, false, 0), vec![1]);
    assert_eq!(standings_listing(&field(), 4, false, 200).len(), 6);
}

#[test]
fn relative_window_surrounds_the_player() {
    assert_eq!(relative_listing(&field(), 4, false, 1, 1), Some(vec![1, 3, 5]));
    assert_eq!(relative_listing(&field(), 4, true, 2, 0), Some(vec![1, 3]));
    assert_eq!(relative_listing(&field(), 4, false, 0, 9), Some(vec![3, 5, 0, 4, 2]));
    let no_player = vec![car(1, Some(1), "GT3", false)];
    assert_eq!(relative_listing(&no_player, 9, false, 2, 2), None);
}
