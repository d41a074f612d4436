//! Ordering of the field around the player: which car is the player's, the
//! cars directly ahead and behind in the classification, and the order of
//! the cars by how close they are on track.

use vstd::prelude::*;

verus! {

/// The order in which cars are listed around the player: group first (0:
/// ahead on track, 1: level, 2: behind), then distance, then field index.
/// The distance is the bit pattern of a non-negative finite `f64`; for such
/// values the patterns order as the distances do.
pub open spec fn key_le(a: (u8, u64, usize), b: (u8, u64, usize)) -> bool {
    a.0 < b.0 || (a.0 == b.0 && (a.1 < b.1 || (a.1 == b.1 && a.2 <= b.2)))
}

pub open spec fn sorted_by_key(s: Seq<(u8, u64, usize)>) -> bool {
    forall|i: int, j: int| 0 <= i < j < s.len() ==> key_le(#[trigger] s[i], #[trigger] s[j])
}

fn key_le_exec(a: (u8, u64, usize), b: (u8, u64, usize)) -> (r: bool)
    ensures
        r == key_le(a, b),
{
    a.0 < b.0 || (a.0 == b.0 && (a.1 < b.1 || (a.1 == b.1 && a.2 <= b.2)))
}

/// The proximity keys in order: a sorted rearrangement of `keys`.
pub fn sort_proximity_keys(keys: &Vec<(u8, u64, usize)>) -> (sorted: Vec<(u8, u64, usize)>)
    ensures
        sorted@.to_multiset() == keys@.to_multiset(),
        sorted_by_key(sorted@),
{
    broadcast use vstd::seq_lib::group_to_multiset_ensures;

    let mut out: Vec<(u8, u64, usize)> = Vec::new();
    let mut i: usize = 0;
    while i < keys.len()
        invariant
            i <= keys.len(),
            sorted_by_key(out@),
            out@.to_multiset() == keys@.subrange(0, i as int).to_multiset(),
        decreases keys.len() - i,
    {
        let k = keys[i];
        let mut p: usize = 0;
        while p < out.len() && key_le_exec(out[p], k)
            invariant
                p <= out.len(),
                forall|j: int| 0 <= j < p ==> key_le(#[trigger] out@[j], k),
            decreases out.len() - p,
        {
            p = p + 1;
        }
        let ghost before = out@;
        out.insert(p, k);
        proof {
            assert(keys@.subrange(0, i + 1) =~= keys@.subrange(0, i as int).push(k));
            vstd::seq_lib::to_multiset_insert(before, p as int, k);
            vstd::seq_lib::to_multiset_build(keys@.subrange(0, i as int), k);
            assert(out@.to_multiset() == keys@.subrange(0, i + 1).to_multiset());
            assert forall|a: int, b: int| 0 <= a < b < out@.len() implies key_le(#[trigger] out@[a], #[trigger] out@[b]) by {
                if b < p {
                } else if b == p {
                } else if a < p {
                    assert(key_le(before[a], k));
                    assert(!key_le(before[p as int], k));
                    assert(key_le(before[p as int], before[b - 1]) || p == b - 1);
                } else if a == p {
                    assert(!key_le(before[p as int], k));
                    assert(key_le(before[p as int], before[b - 1]) || p == b - 1);
                } else {
                    assert(key_le(before[a - 1], before[b - 1]));
                }
            }
        }
        i = i + 1;
    }
    proof {
        assert(keys@.subrange(0, keys@.len() as int) =~= keys@);
    }
    out
}

/// The field indices of the cars, nearest car ahead first, then the
/// player's level, then the nearest car behind, each group by distance.
pub fn proximity_order(keys: &Vec<(u8, u64, usize)>) -> (order: Vec<usize>)
    ensures
        exists|sorted: Seq<(u8, u64, usize)>| #![trigger sorted_by_key(sorted)]
            sorted.to_multiset() == keys@.to_multiset() && sorted_by_key(sorted)
            && order@ == sorted.map_values(|k: (u8, u64, usize)| k.2),
{
    let sorted = sort_proximity_keys(keys);
    let mut order: Vec<usize> = Vec::new();
    let mut i: usize = 0;
    while i < sorted.len()
        invariant
            i <= sorted.len(),
            order@ == sorted@.subrange(0, i as int).map_values(|k: (u8, u64, usize)| k.2),
        decreases sorted.len() - i,
    {
        order.push(sorted[i].2);
        proof {
            assert(sorted@.subrange(0, i + 1).map_values(|k: (u8, u64, usize)| k.2)
                =~= sorted@.subrange(0, i as int).map_values(|k: (u8, u64, usize)| k.2).push(sorted@[i as int].2));
        }
        i = i + 1;
    }
    proof {
        assert(sorted@.subrange(0, sorted@.len() as int) =~= sorted@);
    }
    order
}

/// The proximity order leaves nothing open: two sorted rearrangements of the
/// same keys are the same sequence, so the listing of the field is fully
/// determined by the keys.
pub proof fn lemma_sorted_rearrangement_unique(a: Seq<(u8, u64, usize)>, b: Seq<(u8, u64, usize)>)
    requires
        a.to_multiset() == b.to_multiset(),
        sorted_by_key(a),
        sorted_by_key(b),
    ensures
        a == b,
    decreases a.len(),
{
    broadcast use vstd::seq_lib::group_to_multiset_ensures;

    if a.len() == 0 {
        assert(b.to_multiset().len() == 0);
        assert(b =~= a);
    } else {
        assert(a.contains(a[0]));
        assert(b.to_multiset().count(a[0]) > 0);
        assert(b.contains(a[0]));
        let j = choose|j: int| 0 <= j < b.len() && b[j] == a[0];
        assert(b.len() > 0);
        assert(b.contains(b[0]));
        assert(a.to_multiset().count(b[0]) > 0);
        assert(a.contains(b[0]));
        let k = choose|k: int| 0 <= k < a.len() && a[k] == b[0];
        assert(key_le(b[0], a[0])) by {
            if j > 0 {
                assert(key_le(b[0], b[j]));
            }
        }
        assert(key_le(a[0], b[0])) by {
            if k > 0 {
                assert(key_le(a[0], a[k]));
            }
        }
        assert(a[0] == b[0]);
        assert(a.remove(0) =~= a.drop_first());
        assert(b.remove(0) =~= b.drop_first());
        assert(a.drop_first().to_multiset() == b.drop_first().to_multiset()) by {
            vstd::seq_lib::to_multiset_remove(a, 0);
            vstd::seq_lib::to_multiset_remove(b, 0);
        }
        assert(sorted_by_key(a.drop_first())) by {
            assert forall|x: int, y: int| 0 <= x < y < a.drop_first().len() implies
                key_le(#[trigger] a.drop_first()[x], #[trigger] a.drop_first()[y]) by {
                assert(key_le(a[x + 1], a[y + 1]));
            }
        }
        assert(sorted_by_key(b.drop_first())) by {
            assert forall|x: int, y: int| 0 <= x < y < b.drop_first().len() implies
                key_le(#[trigger] b.drop_first()[x], #[trigger] b.drop_first()[y]) by {
                assert(key_le(b[x + 1], b[y + 1]));
            }
        }
        lemma_sorted_rearrangement_unique(a.drop_first(), b.drop_first());
        assert(a =~= b) by {
            assert forall|x: int| 0 <= x < a.len() implies a[x] == b[x] by {
                if x > 0 {
                    assert(a[x] == a.drop_first()[x - 1]);
                    assert(b[x] == b.drop_first()[x - 1]);
                }
            }
        }
    }
}

/// Whether a car (slot id, player flag) is the player's.
pub open spec fn is_player_car(car: (i32, bool), player_slot_id: i32) -> bool {
    car.1 || car.0 == player_slot_id
}

/// The first car of the field that is flagged as the player or holds the
/// player's slot id.
pub fn player_position(cars: &Vec<(i32, bool)>, player_slot_id: i32) -> (r: Option<usize>)
    ensures
        r matches Some(i) ==> i < cars@.len() && is_player_car(cars@[i as int], player_slot_id)
            && forall|j: int| 0 <= j < i ==> !is_player_car(#[trigger] cars@[j], player_slot_id),
        r is None ==> forall|j: int| 0 <= j < cars@.len() ==> !is_player_car(#[trigger] cars@[j], player_slot_id),
{
    let mut i: usize = 0;
    while i < cars.len()
        invariant
            i <= cars.len(),
            forall|j: int| 0 <= j < i ==> !is_player_car(#[trigger] cars@[j], player_slot_id),
        decreases cars.len() - i,
    {
        if cars[i].1 || cars[i].0 == player_slot_id {
            return Some(i);
        }
        i = i + 1;
    }
    None
}

/// Whether a car (place, lap, has a gap to the leader) is the neighbour of
/// the player at classification place `place` on the player's lap.
pub open spec fn is_neighbor(car: (Option<i32>, i32, bool), place: int, player_lap: i32) -> bool {
    car.0 == Some(place as i32) && car.1 == player_lap && car.2
}

/// The first car classified at `player_place + offset` that is on the
/// player's lap and has a gap to the leader; the player's gap to a
/// neighbour is then the difference of the two gaps to the leader.
pub fn field_neighbor(cars: &Vec<(Option<i32>, i32, bool)>, player_place: i32, player_lap: i32, offset: i32) -> (r: Option<usize>)
    requires
        i32::MIN <= player_place + offset <= i32::MAX,
    ensures
        r matches Some(i) ==> i < cars@.len() && is_neighbor(cars@[i as int], player_place + offset, player_lap)
            && forall|j: int| 0 <= j < i ==> !is_neighbor(#[trigger] cars@[j], player_place + offset, player_lap),
        r is None ==> forall|j: int| 0 <= j < cars@.len() ==> !is_neighbor(#[trigger] cars@[j], player_place + offset, player_lap),
{
    let place = player_place + offset;
    let mut i: usize = 0;
    while i < cars.len()
        invariant
            i <= cars.len(),
            place == player_place + offset,
            forall|j: int| 0 <= j < i ==> !is_neighbor(#[trigger] cars@[j], player_place + offset, player_lap),
        decreases cars.len() - i,
    {
        let car = cars[i];
        if car.0 == Some(place) && car.1 == player_lap && car.2 {
            return Some(i);
        }
        i = i + 1;
    }
    None
}


/// In the proximity order the cars ahead on track come first, then those
/// level with the player, then those behind; within a group the nearer car
/// comes first, and cars at the same distance keep field order.
pub proof fn lemma_proximity_order_groups(sorted: Seq<(u8, u64, usize)>)
    requires
        sorted_by_key(sorted),
    ensures
        forall|i: int, j: int| 0 <= i < j < sorted.len() ==> {
            &&& (#[trigger] sorted[i]).0 <= (#[trigger] sorted[j]).0
            &&& (sorted[i].0 == sorted[j].0 ==> sorted[i].1 <= sorted[j].1)
            &&& (sorted[i].0 == sorted[j].0 && sorted[i].1 == sorted[j].1 ==> sorted[i].2 <= sorted[j].2)
        },
{
    assert forall|i: int, j: int| 0 <= i < j < sorted.len() implies {
        &&& (#[trigger] sorted[i]).0 <= (#[trigger] sorted[j]).0
        &&& (sorted[i].0 == sorted[j].0 ==> sorted[i].1 <= sorted[j].1)
        &&& (sorted[i].0 == sorted[j].0 && sorted[i].1 == sorted[j].1 ==> sorted[i].2 <= sorted[j].2)
    } by {
        assert(key_le(sorted[i], sorted[j]));
    }
}

} // verus!
