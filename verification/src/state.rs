//! The store that every request works on, and the lookups by identifier that
//! the rules are written with. A lookup by identifier finds the first record
//! that carries it, as a linear search does.

use crate::models::{Cleaner, CleaningTask, Room, RoomStatus};
use vstd::prelude::*;

verus! {

/// All cleaners, rooms and tasks, in the order in which they were added.
pub struct AppStateInner {
    pub cleaners: Vec<Cleaner>,
    pub rooms: Vec<Room>,
    pub tasks: Vec<CleaningTask>,
}

/// The contents of the store.
pub struct StoreView {
    pub cleaners: Seq<Cleaner>,
    pub rooms: Seq<Room>,
    pub tasks: Seq<CleaningTask>,
}

impl View for AppStateInner {
    type V = StoreView;

    open spec fn view(&self) -> StoreView {
        StoreView { cleaners: self.cleaners@, rooms: self.rooms@, tasks: self.tasks@ }
    }
}

impl Default for AppStateInner {
    /// An empty store.
    fn default() -> (s: Self)
        ensures
            s@.cleaners.len() == 0,
            s@.rooms.len() == 0,
            s@.tasks.len() == 0,
    {
        AppStateInner { cleaners: Vec::new(), rooms: Vec::new(), tasks: Vec::new() }
    }
}

pub open spec fn cleaner_ids(s: Seq<Cleaner>) -> Seq<u128> {
    s.map_values(|c: Cleaner| c.id)
}

pub open spec fn room_ids(s: Seq<Room>) -> Seq<u128> {
    s.map_values(|r: Room| r.id)
}

pub open spec fn task_ids(s: Seq<CleaningTask>) -> Seq<u128> {
    s.map_values(|t: CleaningTask| t.id)
}

/// `i` is the first position of `id` in `ids`.
pub open spec fn is_first(ids: Seq<u128>, id: u128, i: int) -> bool {
    &&& 0 <= i < ids.len()
    &&& ids[i] == id
    &&& forall|j: int| 0 <= j < i ==> ids[j] != id
}

/// The first position of `id` in `ids`, if it occurs.
pub open spec fn first_index(ids: Seq<u128>, id: u128) -> Option<int> {
    if exists|i: int| is_first(ids, id, i) {
        Some(choose|i: int| is_first(ids, id, i))
    } else {
        None
    }
}

proof fn lemma_contains_has_first(ids: Seq<u128>, id: u128)
    requires
        ids.contains(id),
    ensures
        exists|i: int| is_first(ids, id, i),
    decreases ids.len(),
{
    let k = choose|k: int| 0 <= k < ids.len() && ids[k] == id;
    if exists|j: int| 0 <= j < k && ids[j] == id {
        let j = choose|j: int| 0 <= j < k && ids[j] == id;
        let p = ids.subrange(0, k);
        assert(p[j] == id);
        lemma_contains_has_first(p, id);
        let i = choose|i: int| is_first(p, id, i);
        assert(forall|m: int| 0 <= m < k ==> p[m] == ids[m]);
        assert(is_first(ids, id, i));
    } else {
        assert(is_first(ids, id, k));
    }
}

/// What `first_index` is: the one first position of `id`, present exactly
/// when `id` occurs.
pub proof fn lemma_first_index(ids: Seq<u128>, id: u128)
    ensures
        first_index(ids, id) is Some <==> ids.contains(id),
        first_index(ids, id) matches Some(i) ==> is_first(ids, id, i),
        forall|i: int| is_first(ids, id, i) ==> first_index(ids, id) == Some(i),
{
    if ids.contains(id) {
        lemma_contains_has_first(ids, id);
    }
    if exists|i: int| is_first(ids, id, i) {
        let c = choose|i: int| is_first(ids, id, i);
        assert(ids[c] == id);
        assert forall|i: int| is_first(ids, id, i) implies c == i by {
            if i < c {
                assert(ids[i] != id);
            }
            if c < i {
                assert(ids[c] != id);
            }
        }
    }
}

/// `rooms` with the first room that carries `id` put into status `s`.
pub open spec fn set_room_status(rooms: Seq<Room>, id: u128, s: RoomStatus) -> Seq<Room> {
    match first_index(room_ids(rooms), id) {
        Some(i) => rooms.update(i, Room { status: s, ..rooms[i] }),
        None => rooms,
    }
}

pub proof fn lemma_set_room_status_ids(rooms: Seq<Room>, id: u128, s: RoomStatus)
    ensures
        room_ids(set_room_status(rooms, id, s)) =~= room_ids(rooms),
        set_room_status(rooms, id, s).len() == rooms.len(),
{
}

/// Keeps the cleaners that do not carry `id`.
pub open spec fn cleaner_other_than(id: u128) -> spec_fn(Cleaner) -> bool {
    |c: Cleaner| c.id != id
}

/// Keeps the rooms that do not carry `id`.
pub open spec fn room_other_than(id: u128) -> spec_fn(Room) -> bool {
    |r: Room| r.id != id
}

/// Keeps the tasks that do not carry `id`.
pub open spec fn task_other_than(id: u128) -> spec_fn(CleaningTask) -> bool {
    |t: CleaningTask| t.id != id
}

/// The position of the first cleaner that carries `id`.
pub fn position_of_cleaner(v: &Vec<Cleaner>, id: u128) -> (r: Option<usize>)
    ensures
        r matches Some(i) ==> first_index(cleaner_ids(v@), id) == Some(i as int),
        r is None ==> first_index(cleaner_ids(v@), id) is None,
        r is Some <==> cleaner_ids(v@).contains(id),
{
    proof {
        lemma_first_index(cleaner_ids(v@), id);
    }
    let mut i: usize = 0;
    while i < v.len()
        invariant
            i <= v.len(),
            forall|j: int| 0 <= j < i ==> v@[j].id != id,
        decreases v.len() - i,
    {
        if v[i].id == id {
            assert(is_first(cleaner_ids(v@), id, i as int));
            return Some(i);
        }
        i = i + 1;
    }
    assert(!cleaner_ids(v@).contains(id)) by {
        if cleaner_ids(v@).contains(id) {
            let k = choose|k: int| 0 <= k < v@.len() && cleaner_ids(v@)[k] == id;
            assert(v@[k].id == id);
        }
    }
    None
}

/// The position of the first room that carries `id`.
pub fn position_of_room(v: &Vec<Room>, id: u128) -> (r: Option<usize>)
    ensures
        r matches Some(i) ==> first_index(room_ids(v@), id) == Some(i as int),
        r is None ==> first_index(room_ids(v@), id) is None,
        r is Some <==> room_ids(v@).contains(id),
{
    proof {
        lemma_first_index(room_ids(v@), id);
    }
    let mut i: usize = 0;
    while i < v.len()
        invariant
            i <= v.len(),
            forall|j: int| 0 <= j < i ==> v@[j].id != id,
        decreases v.len() - i,
    {
        if v[i].id == id {
            assert(is_first(room_ids(v@), id, i as int));
            return Some(i);
        }
        i = i + 1;
    }
    assert(!room_ids(v@).contains(id)) by {
        if room_ids(v@).contains(id) {
            let k = choose|k: int| 0 <= k < v@.len() && room_ids(v@)[k] == id;
            assert(v@[k].id == id);
        }
    }
    None
}

/// The position of the first task that carries `id`.
pub fn position_of_task(v: &Vec<CleaningTask>, id: u128) -> (r: Option<usize>)
    ensures
        r matches Some(i) ==> first_index(task_ids(v@), id) == Some(i as int),
        r is None ==> first_index(task_ids(v@), id) is None,
        r is Some <==> task_ids(v@).contains(id),
{
    proof {
        lemma_first_index(task_ids(v@), id);
    }
    let mut i: usize = 0;
    while i < v.len()
        invariant
            i <= v.len(),
            forall|j: int| 0 <= j < i ==> v@[j].id != id,
        decreases v.len() - i,
    {
        if v[i].id == id {
            assert(is_first(task_ids(v@), id, i as int));
            return Some(i);
        }
        i = i + 1;
    }
    assert(!task_ids(v@).contains(id)) by {
        if task_ids(v@).contains(id) {
            let k = choose|k: int| 0 <= k < v@.len() && task_ids(v@)[k] == id;
            assert(v@[k].id == id);
        }
    }
    None
}

/// A copy of `v` without the cleaners that carry `id`.
pub fn cleaners_without(v: &Vec<Cleaner>, id: u128) -> (r: Vec<Cleaner>)
    ensures
        r@ == v@.filter(cleaner_other_than(id)),
{
    let mut out: Vec<Cleaner> = Vec::new();
    let mut i: usize = 0;
    while i < v.len()
        invariant
            i <= v.len(),
            out@ == v@.take(i as int).filter(cleaner_other_than(id)),
        decreases v.len() - i,
    {
        proof {
            reveal_with_fuel(Seq::filter, 1);
            assert(v@.take(i + 1).drop_last() =~= v@.take(i as int));
        }
        if v[i].id != id {
            out.push(v[i].clone());
        }
        i = i + 1;
    }
    assert(v@.take(v.len() as int) =~= v@);
    out
}

/// A copy of `v` without the rooms that carry `id`.
pub fn rooms_without(v: &Vec<Room>, id: u128) -> (r: Vec<Room>)
    ensures
        r@ == v@.filter(room_other_than(id)),
{
    let mut out: Vec<Room> = Vec::new();
    let mut i: usize = 0;
    while i < v.len()
        invariant
            i <= v.len(),
            out@ == v@.take(i as int).filter(room_other_than(id)),
        decreases v.len() - i,
    {
        proof {
            reveal_with_fuel(Seq::filter, 1);
            assert(v@.take(i + 1).drop_last() =~= v@.take(i as int));
        }
        if v[i].id != id {
            out.push(v[i].clone());
        }
        i = i + 1;
    }
    assert(v@.take(v.len() as int) =~= v@);
    out
}

/// A copy of `v` without the tasks that carry `id`.
pub fn tasks_without(v: &Vec<CleaningTask>, id: u128) -> (r: Vec<CleaningTask>)
    ensures
        r@ == v@.filter(task_other_than(id)),
{
    let mut out: Vec<CleaningTask> = Vec::new();
    let mut i: usize = 0;
    while i < v.len()
        invariant
            i <= v.len(),
            out@ == v@.take(i as int).filter(task_other_than(id)),
        decreases v.len() - i,
    {
        proof {
            reveal_with_fuel(Seq::filter, 1);
            assert(v@.take(i + 1).drop_last() =~= v@.take(i as int));
        }
        if v[i].id != id {
            out.push(v[i].clone());
        }
        i = i + 1;
    }
    assert(v@.take(v.len() as int) =~= v@);
    out
}

} // verus!
