//! Which cars the standings and relative widgets list, and in what order:
//! the field, optionally reduced to the player's class, by classification
//! place (cars without a place last, ties in field order).

use vstd::prelude::*;
use crate::shared_memory::opt_view;
use crate::relative::{is_player_car, player_position};

verus! {

/// What the listings read of a car.
#[derive(Debug, Clone, PartialEq, Eq)]
pub struct ClassifiedCar {
    pub slot_id: i32,
    pub is_player: bool,
    pub place: Option<i32>,
    pub vehicle_class: Option<String>,
}

/// The sort key of a car: its place, or the largest place when it has none.
pub open spec fn place_key(car: ClassifiedCar) -> int {
    match car.place {
        Some(p) => p as int,
        None => i32::MAX as int,
    }
}

/// The index of the first car that is the player's.
pub open spec fn is_first_player(cars: Seq<ClassifiedCar>, i: int, player_slot_id: i32) -> bool {
    &&& 0 <= i < cars.len()
    &&& is_player_car((cars[i].slot_id, cars[i].is_player), player_slot_id)
    &&& forall|j: int| 0 <= j < i ==> !is_player_car((#[trigger] cars[j].slot_id, cars[j].is_player), player_slot_id)
}

/// The player's class: that of the first car that is the player's, none
/// when there is no such car.
pub open spec fn player_class(cars: Seq<ClassifiedCar>, player_slot_id: i32) -> Option<Seq<char>> {
    if exists|i: int| is_first_player(cars, i, player_slot_id) {
        opt_view(cars[choose|i: int| is_first_player(cars, i, player_slot_id)].vehicle_class)
    } else {
        None
    }
}

/// Whether car `i` is listed: every car, or only the player's class.
pub open spec fn listed(cars: Seq<ClassifiedCar>, i: int, class: Option<Seq<char>>, same_class_only: bool) -> bool {
    0 <= i < cars.len() && (!same_class_only || opt_view(cars[i].vehicle_class) == class)
}

/// Car `a` comes before car `b`: a smaller place key, or the same key and a
/// smaller field index.
pub open spec fn listed_before(cars: Seq<ClassifiedCar>, a: int, b: int) -> bool {
    place_key(cars[a]) < place_key(cars[b]) || (place_key(cars[a]) == place_key(cars[b]) && a < b)
}

/// `order` lists exactly the cars that `listed` admits, in the listing order.
pub open spec fn is_listing(cars: Seq<ClassifiedCar>, order: Seq<usize>, class: Option<Seq<char>>, same_class_only: bool) -> bool {
    &&& forall|k: int| 0 <= k < order.len() ==> listed(cars, #[trigger] order[k] as int, class, same_class_only)
    &&& forall|i: int| listed(cars, i, class, same_class_only) ==> exists|k: int| 0 <= k < order.len() && #[trigger] order[k] == i
    &&& forall|a: int, b: int| 0 <= a < b < order.len() ==> listed_before(cars, #[trigger] order[a] as int, #[trigger] order[b] as int)
}

fn option_str_eq(a: &Option<String>, b: &Option<String>) -> (r: bool)
    ensures
        r == (opt_view(*a) == opt_view(*b)),
{
    match (a, b) {
        (Some(x), Some(y)) => crate::text::str_eq(x.as_str(), y.as_str()),
        (None, None) => true,
        _ => false,
    }
}

fn place_key_exec(car: &ClassifiedCar) -> (k: i32)
    ensures
        k == place_key(*car),
{
    match car.place {
        Some(p) => p,
        None => i32::MAX,
    }
}

fn first_player(cars: &Vec<ClassifiedCar>, player_slot_id: i32) -> (r: Option<usize>)
    ensures
        r matches Some(i) ==> is_first_player(cars@, i as int, player_slot_id),
        r is None ==> !exists|i: int| is_first_player(cars@, i, player_slot_id),
{
    let mut i: usize = 0;
    while i < cars.len()
        invariant
            i <= cars.len(),
            forall|j: int| 0 <= j < i ==> !is_player_car((#[trigger] cars@[j].slot_id, cars@[j].is_player), player_slot_id),
        decreases cars.len() - i,
    {
        if cars[i].is_player || cars[i].slot_id == player_slot_id {
            return Some(i);
        }
        i = i + 1;
    }
    None
}

proof fn lemma_first_player_unique(cars: Seq<ClassifiedCar>, i: int, j: int, player_slot_id: i32)
    requires
        is_first_player(cars, i, player_slot_id),
        is_first_player(cars, j, player_slot_id),
    ensures
        i == j,
{
    if i < j {
        assert(!is_player_car((cars[i].slot_id, cars[i].is_player), player_slot_id));
    } else if j < i {
        assert(!is_player_car((cars[j].slot_id, cars[j].is_player), player_slot_id));
    }
}

/// The class filter in force for the player.
fn class_of_player(cars: &Vec<ClassifiedCar>, player_slot_id: i32) -> (class: Option<String>)
    ensures
        opt_view(class) == player_class(cars@, player_slot_id),
{
    match first_player(cars, player_slot_id) {
        Some(i) => {
            proof {
                let c = choose|k: int| is_first_player(cars@, k, player_slot_id);
                lemma_first_player_unique(cars@, i as int, c, player_slot_id);
            }
            match &cars[i].vehicle_class {
                Some(s) => Some(s.clone()),
                None => None,
            }
        },
        None => None,
    }
}

/// The cars of the field in listing order: by place (cars without a place
/// last), ties in field order; with `same_class_only`, only the cars of the
/// player's class.
pub fn class_order(cars: &Vec<ClassifiedCar>, player_slot_id: i32, same_class_only: bool) -> (order: Vec<usize>)
    ensures
        is_listing(cars@, order@, player_class(cars@, player_slot_id), same_class_only),
{
    let class = class_of_player(cars, player_slot_id);
    let ghost cl = player_class(cars@, player_slot_id);
    let mut order: Vec<usize> = Vec::new();
    let mut i: usize = 0;
    while i < cars.len()
        invariant
            i <= cars.len(),
            opt_view(class) == cl,
            forall|k: int| 0 <= k < order@.len() ==> listed(cars@, #[trigger] order@[k] as int, cl, same_class_only) && order@[k] < i,
            forall|c: int| 0 <= c < i && listed(cars@, c, cl, same_class_only) ==> exists|k: int| 0 <= k < order@.len() && #[trigger] order@[k] == c,
            forall|a: int, b: int| 0 <= a < b < order@.len() ==> listed_before(cars@, #[trigger] order@[a] as int, #[trigger] order@[b] as int),
        decreases cars.len() - i,
    {
        if !same_class_only || option_str_eq(&cars[i].vehicle_class, &class) {
            let key = place_key_exec(&cars[i]);
            let mut p: usize = 0;
            while p < order.len() && place_key_exec(&cars[order[p]]) <= key
                invariant
                    p <= order.len(),
                    i < cars@.len(),
                    key == place_key(cars@[i as int]),
                    forall|k: int| 0 <= k < order@.len() ==> (#[trigger] order@[k]) < i,
                    forall|k: int| 0 <= k < p ==> place_key(cars@[#[trigger] order@[k] as int]) <= key,
                decreases order.len() - p,
            {
                p = p + 1;
            }
            let ghost before = order@;
            order.insert(p, i);
            proof {
                assert forall|k: int| 0 <= k < order@.len() implies listed(cars@, #[trigger] order@[k] as int, cl, same_class_only) && order@[k] < i + 1 by {
                    if k < p {
                        assert(order@[k] == before[k]);
                    } else if k > p {
                        assert(order@[k] == before[k - 1]);
                    }
                }
                assert forall|c: int| 0 <= c < i + 1 && listed(cars@, c, cl, same_class_only) implies exists|k: int| 0 <= k < order@.len() && #[trigger] order@[k] == c by {
                    if c == i {
                        assert(order@[p as int] == c);
                    } else {
                        let k = choose|k: int| 0 <= k < before.len() && before[k] == c;
                        if k < p {
                            assert(order@[k] == c);
                        } else {
                            assert(order@[k + 1] == c);
                        }
                    }
                }
                assert forall|a: int, b: int| 0 <= a < b < order@.len() implies listed_before(cars@, #[trigger] order@[a] as int, #[trigger] order@[b] as int) by {
                    if b < p {
                        assert(order@[a] == before[a] && order@[b] == before[b]);
                    } else if b == p {
                        assert(order@[a] == before[a]);
                        assert(place_key(cars@[before[a] as int]) <= key);
                    } else if a < p {
                        assert(order@[a] == before[a] && order@[b] == before[b - 1]);
                        assert(listed_before(cars@, before[a] as int, before[p as int] as int) || p == b - 1);
                        assert(place_key(cars@[before[p as int] as int]) > key);
                        assert(listed_before(cars@, before[p as int] as int, before[b - 1] as int) || p == b - 1);
                    } else if a == p {
                        assert(order@[b] == before[b - 1]);
                        assert(place_key(cars@[before[p as int] as int]) > key);
                        assert(listed_before(cars@, before[p as int] as int, before[b - 1] as int) || p == b - 1);
                    } else {
                        assert(order@[a] == before[a - 1] && order@[b] == before[b - 1]);
                    }
                }
            }
        }
        i = i + 1;
    }
    order
}

/// The number of rows the standings show: the configured count, kept
/// between 1 and 20, and no more than there are cars.
pub open spec fn standings_row_count(rows: u8, cars: int) -> int {
    let wanted: int = if rows < 1 { 1 } else if rows > 20 { 20 } else { rows as int };
    if wanted < cars { wanted } else { cars }
}

/// How many rows the standings show: never more than 20 nor more than
/// there are listed cars; exactly the configured count when it is between
/// 1 and 20 and there are that many cars; 20 when more are configured and
/// there are at least 20 cars; one row when none is configured and there
/// is a car; every car when there are no more than the configured count
/// (and at most 20).
pub proof fn lemma_standings_row_count(rows: u8, cars: int)
    requires
        cars >= 0,
    ensures
        0 <= standings_row_count(rows, cars) <= cars,
        standings_row_count(rows, cars) <= 20,
        1 <= rows <= 20 && cars >= rows ==> standings_row_count(rows, cars) == rows,
        rows > 20 && cars >= 20 ==> standings_row_count(rows, cars) == 20,
        rows == 0 && cars >= 1 ==> standings_row_count(rows, cars) == 1,
        cars <= rows && cars <= 20 ==> standings_row_count(rows, cars) == cars,
{
}

/// A listing orders the cars by place, cars without a place after every
/// car with a place below the largest one, and cars of equal place in
/// field order; it holds each car once; without the class filter it holds
/// every car, with it exactly the cars of the player's class.
pub proof fn lemma_listing_order_and_members(
    cars: Seq<ClassifiedCar>,
    order: Seq<usize>,
    class: Option<Seq<char>>,
    same_class_only: bool,
)
    requires
        is_listing(cars, order, class, same_class_only),
    ensures
        forall|a: int, b: int| 0 <= a < b < order.len() ==> {
            let ca = cars[#[trigger] order[a] as int];
            let cb = cars[#[trigger] order[b] as int];
            &&& (ca.place is Some && cb.place is Some ==> ca.place->0 <= cb.place->0)
            &&& (ca.place is None ==> cb.place is None || cb.place->0 == i32::MAX)
            &&& (ca.place == cb.place ==> order[a] < order[b])
            &&& order[a] != order[b]
        },
        forall|i: int| #![trigger cars[i]] 0 <= i < cars.len() ==> ((exists|k: int| 0 <= k < order.len() && #[trigger] order[k] == i)
            <==> (!same_class_only || opt_view(cars[i].vehicle_class) == class)),
{
    assert forall|i: int| #![trigger cars[i]] 0 <= i < cars.len() implies ((exists|k: int| 0 <= k < order.len() && #[trigger] order[k] == i)
        <==> (!same_class_only || opt_view(cars[i].vehicle_class) == class)) by {
        if exists|k: int| 0 <= k < order.len() && #[trigger] order[k] == i {
            let k = choose|k: int| 0 <= k < order.len() && #[trigger] order[k] == i;
            assert(listed(cars, order[k] as int, class, same_class_only));
        } else {
            assert(!listed(cars, i, class, same_class_only));
        }
    }
}

/// The relative window around position `at` of a listing of `len` cars:
/// it holds `at`, stays inside the listing, and reaches `ahead` cars before
/// and `behind` cars after it, as far as the listing goes.
pub proof fn lemma_window_around(len: int, at: int, ahead: int, behind: int)
    requires
        0 <= at < len,
        ahead >= 0,
        behind >= 0,
    ensures
        0 <= window(len, at, ahead, behind).0 <= at < window(len, at, ahead, behind).1 <= len,
        at - window(len, at, ahead, behind).0 == (if at < ahead { at } else { ahead }),
        window(len, at, ahead, behind).1 - at - 1 == (if behind < len - at - 1 { behind } else { len - at - 1 }),
{
}

/// The cars the standings widget lists: the first rows of the listing.
pub fn standings_listing(cars: &Vec<ClassifiedCar>, player_slot_id: i32, same_class_only: bool, rows: u8) -> (listing: Vec<usize>)
    ensures
        exists|order: Seq<usize>| #![trigger is_listing(cars@, order, player_class(cars@, player_slot_id), same_class_only)]
            is_listing(cars@, order, player_class(cars@, player_slot_id), same_class_only)
            && listing@ == order.subrange(0, standings_row_count(rows, order.len() as int)),
{
    let order = class_order(cars, player_slot_id, same_class_only);
    let wanted: usize = if rows < 1 { 1 } else if rows > 20 { 20 } else { rows as usize };
    let count: usize = if wanted < order.len() { wanted } else { order.len() };
    let mut listing: Vec<usize> = Vec::new();
    let mut k: usize = 0;
    while k < count
        invariant
            k <= count,
            count <= order@.len(),
            listing@ == order@.subrange(0, k as int),
        decreases count - k,
    {
        listing.push(order[k]);
        proof {
            assert(order@.subrange(0, k + 1) =~= order@.subrange(0, k as int).push(order@[k as int]));
        }
        k = k + 1;
    }
    assert(count == standings_row_count(rows, order@.len() as int));
    listing
}

/// The window of the listing the relative widget shows around position
/// `at`: up to `ahead` cars before it and `behind` cars after it.
pub open spec fn window(len: int, at: int, ahead: int, behind: int) -> (int, int) {
    let start = if at >= ahead { at - ahead } else { 0 };
    let end = if at + behind + 1 < len { at + behind + 1 } else { len };
    (start, end)
}

/// The cars the relative widget lists: none when the field has no player
/// car; otherwise the window of the listing around the first listed car
/// with the player car's slot id (empty when no listed car has it).
pub fn relative_listing(cars: &Vec<ClassifiedCar>, player_slot_id: i32, same_class_only: bool, ahead: u8, behind: u8) -> (listing: Option<Vec<usize>>)
    ensures
        listing is None <==> !exists|i: int| is_first_player(cars@, i, player_slot_id),
        listing matches Some(v) ==> exists|order: Seq<usize>, pi: int|
            #![trigger is_listing(cars@, order, player_class(cars@, player_slot_id), same_class_only), is_first_player(cars@, pi, player_slot_id)]
            is_listing(cars@, order, player_class(cars@, player_slot_id), same_class_only)
            && is_first_player(cars@, pi, player_slot_id)
            && ((exists|k: int| 0 <= k < order.len() && cars@[#[trigger] order[k] as int].slot_id == cars@[pi].slot_id) ==>
                exists|at: int| #![trigger order[at]]
                    0 <= at < order.len() && cars@[order[at] as int].slot_id == cars@[pi].slot_id
                    && (forall|k: int| 0 <= k < at ==> cars@[#[trigger] order[k] as int].slot_id != cars@[pi].slot_id)
                    && v@ == order.subrange(window(order.len() as int, at, ahead as int, behind as int).0,
                        window(order.len() as int, at, ahead as int, behind as int).1))
            && (!(exists|k: int| 0 <= k < order.len() && cars@[#[trigger] order[k] as int].slot_id == cars@[pi].slot_id) ==> v@.len() == 0),
{
    let player = match first_player(cars, player_slot_id) {
        Some(i) => i,
        None => return None,
    };
    let slot = cars[player].slot_id;
    let order = class_order(cars, player_slot_id, same_class_only);
    let mut at: usize = 0;
    while at < order.len() && cars[order[at]].slot_id != slot
        invariant
            at <= order.len(),
            forall|k: int| 0 <= k < order@.len() ==> (#[trigger] order@[k]) < cars@.len(),
            forall|k: int| 0 <= k < at ==> cars@[#[trigger] order@[k] as int].slot_id != slot,
        decreases order.len() - at,
    {
        at = at + 1;
    }
    if at == order.len() {
        return Some(Vec::new());
    }
    let start: usize = if at >= ahead as usize { at - ahead as usize } else { 0 };
    let end: usize = if (behind as usize) < order.len() - at - 1 { at + (behind as usize) + 1 } else { order.len() };
    let mut v: Vec<usize> = Vec::new();
    let mut k: usize = start;
    while k < end
        invariant
            start <= k <= end,
            end <= order@.len(),
            v@ == order@.subrange(start as int, k as int),
        decreases end - k,
    {
        v.push(order[k]);
        proof {
            assert(order@.subrange(start as int, k + 1) =~= order@.subrange(start as int, k as int).push(order@[k as int]));
        }
        k = k + 1;
    }
    assert(cars@[order@[at as int] as int].slot_id == slot);
    Some(v)
}

} // verus!
