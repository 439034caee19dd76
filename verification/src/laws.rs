//! What holds of the store across requests: the rules that every request
//! keeps, and what a later request sees of an earlier one.

use crate::error::AppErrorView;
use crate::models::{
    Cleaner, CleaningTask, CreateCleaner, CreateCleaningTask, CreateRoom, Room, TaskStatus,
    UpdateCleaner, UpdateCleaningTask, UpdateProgress, UpdateRoom, is_open,
};
use crate::model::{or_keep, progress_refusal};
use crate::state::{
    StoreView, cleaner_ids, cleaner_other_than, is_first, lemma_first_index, room_ids,
    room_other_than, set_room_status, task_ids, task_other_than,
};
use crate::text::is_blank;
use chrono::NaiveDateTime;
use vstd::prelude::*;

verus! {

impl StoreView {
    /// Every task's cleaner and room are in the store.
    pub open spec fn references_resolve(self) -> bool {
        forall|j: int|
            #![trigger self.tasks[j]]
            0 <= j < self.tasks.len() ==> self.knows_cleaner(self.tasks[j].cleaner_id)
                && self.knows_room(self.tasks[j].room_id)
    }

    /// No two cleaners share an identifier.
    pub open spec fn cleaner_ids_distinct(self) -> bool {
        forall|i: int, j: int|
            #![trigger self.cleaners[i], self.cleaners[j]]
            0 <= i < self.cleaners.len() && 0 <= j < self.cleaners.len() && i != j
                ==> self.cleaners[i].id != self.cleaners[j].id
    }

    /// No two rooms share an identifier.
    pub open spec fn room_ids_distinct(self) -> bool {
        forall|i: int, j: int|
            #![trigger self.rooms[i], self.rooms[j]]
            0 <= i < self.rooms.len() && 0 <= j < self.rooms.len() && i != j ==> self.rooms[i].id
                != self.rooms[j].id
    }

    /// No two tasks share an identifier.
    pub open spec fn task_ids_distinct(self) -> bool {
        forall|i: int, j: int|
            #![trigger self.tasks[i], self.tasks[j]]
            0 <= i < self.tasks.len() && 0 <= j < self.tasks.len() && i != j ==> self.tasks[i].id
                != self.tasks[j].id
    }

    /// No two cleaners, no two rooms and no two tasks share an identifier.
    pub open spec fn ids_distinct(self) -> bool {
        &&& self.cleaner_ids_distinct()
        &&& self.room_ids_distinct()
        &&& self.task_ids_distinct()
    }

    /// No cleaner's name, room's number or task's date is blank.
    pub open spec fn texts_filled(self) -> bool {
        &&& forall|j: int|
            #![trigger self.cleaners[j]]
            0 <= j < self.cleaners.len() ==> !is_blank(self.cleaners[j].name@)
        &&& forall|j: int|
            #![trigger self.rooms[j]]
            0 <= j < self.rooms.len() ==> !is_blank(self.rooms[j].room_number@)
        &&& forall|j: int|
            #![trigger self.tasks[j]]
            0 <= j < self.tasks.len() ==> !is_blank(self.tasks[j].scheduled_date@)
    }

    /// No two rooms share a number.
    pub open spec fn room_numbers_distinct(self) -> bool {
        forall|i: int, j: int|
            #![trigger self.rooms[i], self.rooms[j]]
            0 <= i < self.rooms.len() && 0 <= j < self.rooms.len() && i != j
                ==> self.rooms[i].room_number@ != self.rooms[j].room_number@
    }

    /// No room has two open tasks on one date.
    pub open spec fn slots_distinct(self) -> bool {
        forall|i: int, j: int|
            #![trigger self.tasks[i], self.tasks[j]]
            0 <= i < self.tasks.len() && 0 <= j < self.tasks.len() && i != j ==> !same_slot(
                self.tasks[i],
                self.tasks[j],
            )
    }

    /// The rules that the requests keep.
    pub open spec fn consistent(self) -> bool {
        &&& self.references_resolve()
        &&& self.ids_distinct()
        &&& self.texts_filled()
        &&& self.room_numbers_distinct()
        &&& self.slots_distinct()
    }
}

/// Two open tasks for one room on one date.
pub open spec fn same_slot(a: CleaningTask, b: CleaningTask) -> bool {
    &&& is_open(a.status)
    &&& is_open(b.status)
    &&& a.room_id == b.room_id
    &&& a.scheduled_date@ == b.scheduled_date@
}

/// A relation that holds between any two entries of `s` at different
/// positions holds between any two of a filtered `s`; every entry of a
/// filtered `s` is an entry of `s`.
proof fn lemma_filter_pairwise<A>(s: Seq<A>, pred: spec_fn(A) -> bool, rel: spec_fn(A, A) -> bool)
    requires
        forall|i: int, j: int|
            #![trigger s[i], s[j]]
            0 <= i < s.len() && 0 <= j < s.len() && i != j ==> rel(s[i], s[j]),
    ensures
        forall|i: int, j: int|
            #![trigger s.filter(pred)[i], s.filter(pred)[j]]
            0 <= i < s.filter(pred).len() && 0 <= j < s.filter(pred).len() && i != j ==> rel(
                s.filter(pred)[i],
                s.filter(pred)[j],
            ),
        forall|i: int|
            0 <= i < s.filter(pred).len() ==> exists|k: int|
                0 <= k < s.len() && s[k] == #[trigger] s.filter(pred)[i],
    decreases s.len(),
{
    reveal(Seq::filter);
    let f = s.filter(pred);
    if s.len() > 0 {
        let d = s.drop_last();
        lemma_filter_pairwise(d, pred, rel);
        let sub = d.filter(pred);
        assert forall|i: int| 0 <= i < f.len() implies exists|k: int|
            0 <= k < s.len() && s[k] == #[trigger] f[i] by {
            if i < sub.len() {
                let k = choose|k: int| 0 <= k < d.len() && d[k] == sub[i];
                assert(s[k] == f[i]);
            } else {
                assert(s[s.len() - 1] == f[i]);
            }
        }
        assert forall|i: int, j: int|
            #![trigger f[i], f[j]]
            0 <= i < f.len() && 0 <= j < f.len() && i != j implies rel(f[i], f[j]) by {
            if i < sub.len() && j < sub.len() {
                assert(f[i] == sub[i] && f[j] == sub[j]);
            } else if i < sub.len() {
                let k = choose|k: int| 0 <= k < d.len() && d[k] == sub[i];
                assert(s[k] == f[i]);
                assert(s[s.len() - 1] == f[j]);
            } else {
                let k = choose|k: int| 0 <= k < d.len() && d[k] == sub[j];
                assert(s[k] == f[j]);
                assert(s[s.len() - 1] == f[i]);
            }
        }
    }
}

/// A cleaner identifier is known exactly when some cleaner carries it.
proof fn lemma_knows_cleaner(s: Seq<Cleaner>, id: u128)
    ensures
        cleaner_ids(s).contains(id) <==> exists|k: int| 0 <= k < s.len() && #[trigger] s[k].id == id,
{
    if exists|k: int| 0 <= k < s.len() && #[trigger] s[k].id == id {
        let k = choose|k: int| 0 <= k < s.len() && #[trigger] s[k].id == id;
        assert(cleaner_ids(s)[k] == id);
    }
}

/// A room identifier is known exactly when some room carries it.
proof fn lemma_knows_room(s: Seq<Room>, id: u128)
    ensures
        room_ids(s).contains(id) <==> exists|k: int| 0 <= k < s.len() && #[trigger] s[k].id == id,
{
    if exists|k: int| 0 <= k < s.len() && #[trigger] s[k].id == id {
        let k = choose|k: int| 0 <= k < s.len() && #[trigger] s[k].id == id;
        assert(room_ids(s)[k] == id);
    }
}

/// A task identifier is known exactly when some task carries it.
proof fn lemma_knows_task(s: Seq<CleaningTask>, id: u128)
    ensures
        task_ids(s).contains(id) <==> exists|k: int| 0 <= k < s.len() && #[trigger] s[k].id == id,
{
    if exists|k: int| 0 <= k < s.len() && #[trigger] s[k].id == id {
        let k = choose|k: int| 0 <= k < s.len() && #[trigger] s[k].id == id;
        assert(task_ids(s)[k] == id);
    }
}

/// Changing a room's status changes no identifier and no number.
proof fn lemma_set_room_status_keeps(rooms: Seq<Room>, id: u128, s: crate::models::RoomStatus)
    ensures
        set_room_status(rooms, id, s).len() == rooms.len(),
        forall|j: int|
            #![trigger set_room_status(rooms, id, s)[j]]
            0 <= j < rooms.len() ==> set_room_status(rooms, id, s)[j].id == rooms[j].id
                && set_room_status(rooms, id, s)[j].room_number == rooms[j].room_number,
        room_ids(set_room_status(rooms, id, s)) =~= room_ids(rooms),
{
    lemma_first_index(room_ids(rooms), id);
}

/// The rooms after a task change carry the identifiers and numbers that
/// they carried before.
proof fn lemma_rooms_after_task_update_keeps(st: StoreView, i: int, p: UpdateCleaningTask)
    ensures
        st.rooms_after_task_update(i, p).len() == st.rooms.len(),
        forall|j: int|
            #![trigger st.rooms_after_task_update(i, p)[j]]
            0 <= j < st.rooms.len() ==> st.rooms_after_task_update(i, p)[j].id == st.rooms[j].id
                && st.rooms_after_task_update(i, p)[j].room_number == st.rooms[j].room_number,
{
    let cur = st.tasks[i];
    let new_room = or_keep(p.room_id, cur.room_id);
    let a = crate::models::RoomStatus::Available;
    lemma_set_room_status_keeps(st.rooms, new_room, a);
    lemma_set_room_status_keeps(st.rooms, new_room, crate::models::RoomStatus::Cleaning);
    let first = if st.room_busy_except(new_room, cur.id) {
        st.rooms
    } else {
        set_room_status(st.rooms, new_room, a)
    };
    lemma_set_room_status_keeps(first, cur.room_id, a);
}

/// The rooms after a progress step carry the identifiers and numbers that
/// they carried before.
proof fn lemma_rooms_after_progress_keeps(st: StoreView, i: int, to: TaskStatus)
    ensures
        st.rooms_after_progress(i, to).len() == st.rooms.len(),
        forall|j: int|
            #![trigger st.rooms_after_progress(i, to)[j]]
            0 <= j < st.rooms.len() ==> st.rooms_after_progress(i, to)[j].id == st.rooms[j].id
                && st.rooms_after_progress(i, to)[j].room_number == st.rooms[j].room_number,
{
    let r = st.tasks[i].room_id;
    lemma_set_room_status_keeps(st.rooms, r, crate::models::RoomStatus::Available);
    lemma_set_room_status_keeps(st.rooms, r, crate::models::RoomStatus::Cleaning);
}

/// Two stores whose rooms carry the same identifiers and numbers, in the
/// same order, agree on which rooms are known, on which numbers are taken,
/// and on the rules about rooms.
proof fn lemma_same_rooms(a: StoreView, b: Seq<Room>)
    requires
        a.rooms.len() == b.len(),
        forall|j: int|
            #![trigger b[j]]
            0 <= j < b.len() ==> b[j].id == a.rooms[j].id && b[j].room_number == a.rooms[j].room_number,
    ensures
        room_ids(b) =~= room_ids(a.rooms),
        forall|n: Seq<char>|
            #[trigger] (StoreView { rooms: b, ..a }).number_taken(n) == a.number_taken(n),
        a.room_ids_distinct() ==> (StoreView { rooms: b, ..a }).room_ids_distinct(),
        a.texts_filled() ==> (StoreView { rooms: b, ..a }).texts_filled(),
        a.room_numbers_distinct() ==> (StoreView { rooms: b, ..a }).room_numbers_distinct(),
{
    let c = StoreView { rooms: b, ..a };
    assert(room_ids(b) =~= room_ids(a.rooms));
    assert forall|n: Seq<char>| #[trigger] c.number_taken(n) == a.number_taken(n) by {
        if c.number_taken(n) {
            let j = choose|j: int| 0 <= j < b.len() && #[trigger] b[j].room_number@ == n;
            assert(a.rooms[j].room_number@ == n);
        }
        if a.number_taken(n) {
            let j = choose|j: int| 0 <= j < b.len() && #[trigger] a.rooms[j].room_number@ == n;
            assert(b[j].room_number@ == n);
        }
    }
    if a.room_ids_distinct() {
        assert forall|i: int, j: int|
            #![trigger b[i], b[j]]
            0 <= i < b.len() && 0 <= j < b.len() && i != j implies b[i].id != b[j].id by {
            assert(a.rooms[i].id != a.rooms[j].id);
        }
    }
    if a.texts_filled() {
        assert forall|j: int| #![trigger b[j]] 0 <= j < b.len() implies !is_blank(b[j].room_number@) by {
            assert(!is_blank(a.rooms[j].room_number@));
        }
    }
    if a.room_numbers_distinct() {
        assert forall|i: int, j: int|
            #![trigger b[i], b[j]]
            0 <= i < b.len() && 0 <= j < b.len() && i != j implies b[i].room_number@
            != b[j].room_number@ by {
            assert(a.rooms[i].room_number@ != a.rooms[j].room_number@);
        }
    }
}

/// Adding a cleaner keeps each rule that held before; distinct cleaner
/// identifiers stay distinct when the new identifier is not in use. The
/// taken room numbers stay as they were.
pub proof fn lemma_create_cleaner_keeps_rules(
    st: StoreView,
    p: CreateCleaner,
    id: u128,
    now: NaiveDateTime,
)
    ensures
        ({
            let after = st.create_cleaner(p, id, now).0;
            &&& st.references_resolve() ==> after.references_resolve()
            &&& st.cleaner_ids_distinct() && !st.knows_cleaner(id) ==> after.cleaner_ids_distinct()
            &&& st.room_ids_distinct() ==> after.room_ids_distinct()
            &&& st.task_ids_distinct() ==> after.task_ids_distinct()
            &&& st.texts_filled() ==> after.texts_filled()
            &&& st.room_numbers_distinct() ==> after.room_numbers_distinct()
            &&& st.slots_distinct() ==> after.slots_distinct()
            &&& st.consistent() && !st.knows_cleaner(id) ==> after.consistent()
            &&& forall|n: Seq<char>| #[trigger] after.number_taken(n) == st.number_taken(n)
        }),
{
    let after = st.create_cleaner(p, id, now).0;
    if !is_blank(p.name@) {
        let n = st.cleaners.len() as int;
        if st.references_resolve() {
            assert forall|j: int| #![trigger after.tasks[j]] 0 <= j < after.tasks.len() implies after.knows_cleaner(
                after.tasks[j].cleaner_id,
            ) && after.knows_room(after.tasks[j].room_id) by {
                let c = after.tasks[j].cleaner_id;
                assert(st.knows_cleaner(c));
                let k = choose|k: int| 0 <= k < n && cleaner_ids(st.cleaners)[k] == c;
                assert(cleaner_ids(after.cleaners)[k] == c);
            }
        }
        if st.cleaner_ids_distinct() && !st.knows_cleaner(id) {
            assert forall|i: int, j: int|
                #![trigger after.cleaners[i], after.cleaners[j]]
                0 <= i < after.cleaners.len() && 0 <= j < after.cleaners.len() && i != j
                    implies after.cleaners[i].id != after.cleaners[j].id by {
                if i == n {
                    assert(cleaner_ids(st.cleaners)[j] == after.cleaners[j].id);
                } else if j == n {
                    assert(cleaner_ids(st.cleaners)[i] == after.cleaners[i].id);
                }
            }
        }
        assert(after.cleaners[n].name == p.name);
    }
}

/// Changing a cleaner keeps each rule that held before, and the taken room
/// numbers.
pub proof fn lemma_update_cleaner_keeps_rules(st: StoreView, id: u128, p: UpdateCleaner)
    ensures
        ({
            let after = st.update_cleaner(id, p).0;
            &&& st.references_resolve() ==> after.references_resolve()
            &&& st.cleaner_ids_distinct() ==> after.cleaner_ids_distinct()
            &&& st.room_ids_distinct() ==> after.room_ids_distinct()
            &&& st.task_ids_distinct() ==> after.task_ids_distinct()
            &&& st.texts_filled() ==> after.texts_filled()
            &&& st.room_numbers_distinct() ==> after.room_numbers_distinct()
            &&& st.slots_distinct() ==> after.slots_distinct()
            &&& st.consistent() ==> after.consistent()
            &&& forall|n: Seq<char>| #[trigger] after.number_taken(n) == st.number_taken(n)
        }),
{
    lemma_first_index(cleaner_ids(st.cleaners), id);
    let after = st.update_cleaner(id, p).0;
    if let Some(i) = st.index_of_cleaner(id) {
        assert(cleaner_ids(after.cleaners) =~= cleaner_ids(st.cleaners));
    }
}

/// Removing a cleaner keeps each rule that held before, and the taken room
/// numbers.
pub proof fn lemma_delete_cleaner_keeps_rules(st: StoreView, id: u128)
    ensures
        ({
            let after = st.delete_cleaner(id).0;
            &&& st.references_resolve() ==> after.references_resolve()
            &&& st.cleaner_ids_distinct() ==> after.cleaner_ids_distinct()
            &&& st.room_ids_distinct() ==> after.room_ids_distinct()
            &&& st.task_ids_distinct() ==> after.task_ids_distinct()
            &&& st.texts_filled() ==> after.texts_filled()
            &&& st.room_numbers_distinct() ==> after.room_numbers_distinct()
            &&& st.slots_distinct() ==> after.slots_distinct()
            &&& st.consistent() ==> after.consistent()
            &&& forall|n: Seq<char>| #[trigger] after.number_taken(n) == st.number_taken(n)
        }),
{
    let after = st.delete_cleaner(id).0;
    if !st.cleaner_has_tasks(id) && st.knows_cleaner(id) {
        let pred = cleaner_other_than(id);
        let f = st.cleaners.filter(pred);
        lemma_filter_pairwise(st.cleaners, pred, |a: Cleaner, b: Cleaner| true);
        if st.references_resolve() {
            assert forall|j: int| #![trigger after.tasks[j]] 0 <= j < after.tasks.len() implies after.knows_cleaner(
                after.tasks[j].cleaner_id,
            ) && after.knows_room(after.tasks[j].room_id) by {
                let c = st.tasks[j].cleaner_id;
                assert(c != id);
                lemma_knows_cleaner(st.cleaners, c);
                let k = choose|k: int| 0 <= k < st.cleaners.len() && #[trigger] st.cleaners[k].id == c;
                st.cleaners.lemma_filter_contains(pred, k);
                let m = choose|m: int| 0 <= m < f.len() && f[m] == st.cleaners[k];
                assert(cleaner_ids(f)[m] == c);
            }
        }
        if st.texts_filled() {
            assert forall|j: int| #![trigger f[j]] 0 <= j < f.len() implies !is_blank(f[j].name@) by {
                let k = choose|k: int| 0 <= k < st.cleaners.len() && st.cleaners[k] == #[trigger] f[j];
            }
        }
        if st.cleaner_ids_distinct() {
            lemma_filter_pairwise(st.cleaners, pred, |a: Cleaner, b: Cleaner| a.id != b.id);
            assert forall|i: int, j: int|
                #![trigger f[i], f[j]]
                0 <= i < f.len() && 0 <= j < f.len() && i != j implies f[i].id != f[j].id by {
                assert((|a: Cleaner, b: Cleaner| a.id != b.id)(f[i], f[j]));
            }
        }
    }
}

/// Adding a room keeps each rule that held before; distinct room
/// identifiers stay distinct when the new identifier is not in use. Every
/// number that was taken stays taken, and on success the new room's number
/// is taken.
pub proof fn lemma_create_room_keeps_rules(st: StoreView, p: CreateRoom, id: u128, now: NaiveDateTime)
    ensures
        ({
            let (after, r) = st.create_room(p, id, now);
            &&& st.references_resolve() ==> after.references_resolve()
            &&& st.cleaner_ids_distinct() ==> after.cleaner_ids_distinct()
            &&& st.room_ids_distinct() && !st.knows_room(id) ==> after.room_ids_distinct()
            &&& st.task_ids_distinct() ==> after.task_ids_distinct()
            &&& st.texts_filled() ==> after.texts_filled()
            &&& st.room_numbers_distinct() ==> after.room_numbers_distinct()
            &&& st.slots_distinct() ==> after.slots_distinct()
            &&& st.consistent() && !st.knows_room(id) ==> after.consistent()
            &&& forall|n: Seq<char>| #[trigger] st.number_taken(n) ==> after.number_taken(n)
            &&& r is Ok ==> after.number_taken(p.room_number@)
        }),
{
    let after = st.create_room(p, id, now).0;
    if !is_blank(p.room_number@) && !st.number_taken(p.room_number@) {
        let n = st.rooms.len() as int;
        lemma_knows_room(st.rooms, id);
        if st.references_resolve() {
            assert forall|j: int| #![trigger after.tasks[j]] 0 <= j < after.tasks.len() implies after.knows_cleaner(
                after.tasks[j].cleaner_id,
            ) && after.knows_room(after.tasks[j].room_id) by {
                let c = after.tasks[j].room_id;
                assert(st.knows_room(c));
                lemma_knows_room(st.rooms, c);
                lemma_knows_room(after.rooms, c);
                let k = choose|k: int| 0 <= k < n && #[trigger] st.rooms[k].id == c;
                assert(after.rooms[k].id == c);
            }
        }
        if st.room_ids_distinct() && !st.knows_room(id) {
            assert forall|i: int, j: int|
                #![trigger after.rooms[i], after.rooms[j]]
                0 <= i < after.rooms.len() && 0 <= j < after.rooms.len() && i != j
                    implies after.rooms[i].id != after.rooms[j].id by {
                if i == n {
                    assert(st.rooms[j].id != id);
                } else if j == n {
                    assert(st.rooms[i].id != id);
                }
            }
        }
        if st.room_numbers_distinct() {
            assert forall|i: int, j: int|
                #![trigger after.rooms[i], after.rooms[j]]
                0 <= i < after.rooms.len() && 0 <= j < after.rooms.len() && i != j
                    implies after.rooms[i].room_number@ != after.rooms[j].room_number@ by {
                if i == n {
                    assert(st.rooms[j].room_number@ != p.room_number@);
                } else if j == n {
                    assert(st.rooms[i].room_number@ != p.room_number@);
                }
            }
        }
        assert forall|m: Seq<char>| #[trigger] st.number_taken(m) implies after.number_taken(m) by {
            let j = choose|j: int| 0 <= j < st.rooms.len() && #[trigger] st.rooms[j].room_number@ == m;
            assert(after.rooms[j].room_number@ == m);
        }
        assert(after.rooms[n].room_number == p.room_number);
    }
}

/// Changing a room keeps each rule that held before; room numbers stay
/// distinct when room identifiers are distinct.
pub proof fn lemma_update_room_keeps_rules(st: StoreView, id: u128, p: UpdateRoom)
    ensures
        ({
            let after = st.update_room(id, p).0;
            &&& st.references_resolve() ==> after.references_resolve()
            &&& st.cleaner_ids_distinct() ==> after.cleaner_ids_distinct()
            &&& st.room_ids_distinct() ==> after.room_ids_distinct()
            &&& st.task_ids_distinct() ==> after.task_ids_distinct()
            &&& st.texts_filled() ==> after.texts_filled()
            &&& st.room_numbers_distinct() && st.room_ids_distinct() ==> after.room_numbers_distinct()
            &&& st.slots_distinct() ==> after.slots_distinct()
            &&& st.consistent() ==> after.consistent()
        }),
{
    lemma_first_index(room_ids(st.rooms), id);
    let after = st.update_room(id, p).0;
    if let Some(i) = st.index_of_room(id) {
        if st.room_update_refusal(id, p) is None {
            assert(room_ids(after.rooms) =~= room_ids(st.rooms));
            assert(st.rooms[i].id == id);
            if st.room_numbers_distinct() && st.room_ids_distinct() {
                assert forall|a: int, b: int|
                    #![trigger after.rooms[a], after.rooms[b]]
                    0 <= a < after.rooms.len() && 0 <= b < after.rooms.len() && a != b
                        implies after.rooms[a].room_number@ != after.rooms[b].room_number@ by {
                    if a == i || b == i {
                        let o = if a == i {
                            b
                        } else {
                            a
                        };
                        assert(st.rooms[o].id != id);
                        if p.room_number is None {
                            assert(st.rooms[i].room_number@ != st.rooms[o].room_number@);
                        } else {
                            assert(!(st.rooms[o].room_number@ == p.room_number.unwrap()@
                                && st.rooms[o].id != id));
                        }
                    } else {
                        assert(st.rooms[a].room_number@ != st.rooms[b].room_number@);
                    }
                }
            }
            if st.room_ids_distinct() {
                assert(after.room_ids_distinct());
            }
            if st.texts_filled() {
                assert(after.texts_filled());
            }
        }
    }
}

/// Removing a room keeps each rule that held before.
pub proof fn lemma_delete_room_keeps_rules(st: StoreView, id: u128)
    ensures
        ({
            let after = st.delete_room(id).0;
            &&& st.references_resolve() ==> after.references_resolve()
            &&& st.cleaner_ids_distinct() ==> after.cleaner_ids_distinct()
            &&& st.room_ids_distinct() ==> after.room_ids_distinct()
            &&& st.task_ids_distinct() ==> after.task_ids_distinct()
            &&& st.texts_filled() ==> after.texts_filled()
            &&& st.room_numbers_distinct() ==> after.room_numbers_distinct()
            &&& st.slots_distinct() ==> after.slots_distinct()
            &&& st.consistent() ==> after.consistent()
        }),
{
    let after = st.delete_room(id).0;
    if !st.room_has_tasks(id) && st.knows_room(id) {
        let pred = room_other_than(id);
        let f = st.rooms.filter(pred);
        lemma_filter_pairwise(st.rooms, pred, |a: Room, b: Room| true);
        if st.references_resolve() {
            assert forall|j: int| #![trigger after.tasks[j]] 0 <= j < after.tasks.len() implies after.knows_cleaner(
                after.tasks[j].cleaner_id,
            ) && after.knows_room(after.tasks[j].room_id) by {
                let c = st.tasks[j].room_id;
                assert(c != id);
                lemma_knows_room(st.rooms, c);
                let k = choose|k: int| 0 <= k < st.rooms.len() && #[trigger] st.rooms[k].id == c;
                st.rooms.lemma_filter_contains(pred, k);
                let m = choose|m: int| 0 <= m < f.len() && f[m] == st.rooms[k];
                assert(room_ids(f)[m] == c);
            }
        }
        if st.texts_filled() {
            assert forall|j: int| #![trigger f[j]] 0 <= j < f.len() implies !is_blank(f[j].room_number@) by {
                let k = choose|k: int| 0 <= k < st.rooms.len() && st.rooms[k] == #[trigger] f[j];
            }
        }
        if st.room_ids_distinct() {
            lemma_filter_pairwise(st.rooms, pred, |a: Room, b: Room| a.id != b.id);
            assert forall|i: int, j: int|
                #![trigger f[i], f[j]]
                0 <= i < f.len() && 0 <= j < f.len() && i != j implies f[i].id != f[j].id by {
                assert((|a: Room, b: Room| a.id != b.id)(f[i], f[j]));
            }
        }
        if st.room_numbers_distinct() {
            lemma_filter_pairwise(st.rooms, pred, |a: Room, b: Room| a.room_number@ != b.room_number@);
            assert forall|i: int, j: int|
                #![trigger f[i], f[j]]
                0 <= i < f.len() && 0 <= j < f.len() && i != j implies f[i].room_number@
                != f[j].room_number@ by {
                assert((|a: Room, b: Room| a.room_number@ != b.room_number@)(f[i], f[j]));
            }
        }
    }
}

/// Scheduling a task keeps each rule that held before; distinct task
/// identifiers stay distinct when the new identifier is not in use. The
/// taken room numbers stay as they were.
pub proof fn lemma_create_task_keeps_rules(
    st: StoreView,
    p: CreateCleaningTask,
    id: u128,
    now: NaiveDateTime,
)
    ensures
        ({
            let after = st.create_task(p, id, now).0;
            &&& st.references_resolve() ==> after.references_resolve()
            &&& st.cleaner_ids_distinct() ==> after.cleaner_ids_distinct()
            &&& st.room_ids_distinct() ==> after.room_ids_distinct()
            &&& st.task_ids_distinct() && !task_ids(st.tasks).contains(id)
                ==> after.task_ids_distinct()
            &&& st.texts_filled() ==> after.texts_filled()
            &&& st.room_numbers_distinct() ==> after.room_numbers_distinct()
            &&& st.slots_distinct() ==> after.slots_distinct()
            &&& st.consistent() && !task_ids(st.tasks).contains(id) ==> after.consistent()
            &&& forall|n: Seq<char>| #[trigger] after.number_taken(n) == st.number_taken(n)
        }),
{
    let after = st.create_task(p, id, now).0;
    if st.task_creation_refusal(p) is None {
        let n = st.tasks.len() as int;
        let rooms = set_room_status(st.rooms, p.room_id, crate::models::RoomStatus::Cleaning);
        lemma_set_room_status_keeps(st.rooms, p.room_id, crate::models::RoomStatus::Cleaning);
        lemma_same_rooms(st, rooms);
        lemma_knows_task(st.tasks, id);
        assert forall|m: Seq<char>| #[trigger] after.number_taken(m) == st.number_taken(m) by {
            assert((StoreView { rooms, ..st }).number_taken(m) == st.number_taken(m));
        }
        let t = after.tasks[n];
        if st.references_resolve() {
            assert forall|j: int| #![trigger after.tasks[j]] 0 <= j < after.tasks.len() implies after.knows_cleaner(
                after.tasks[j].cleaner_id,
            ) && after.knows_room(after.tasks[j].room_id) by {
                if j < n {
                    assert(st.tasks[j] == after.tasks[j]);
                }
            }
        }
        if st.task_ids_distinct() && !task_ids(st.tasks).contains(id) {
            assert forall|i: int, j: int|
                #![trigger after.tasks[i], after.tasks[j]]
                0 <= i < after.tasks.len() && 0 <= j < after.tasks.len() && i != j
                    implies after.tasks[i].id != after.tasks[j].id by {
                if i == n {
                    assert(st.tasks[j].id != id);
                } else if j == n {
                    assert(st.tasks[i].id != id);
                } else {
                    assert(st.tasks[i] == after.tasks[i] && st.tasks[j] == after.tasks[j]);
                }
            }
        }
        if st.slots_distinct() {
            assert forall|i: int, j: int|
                #![trigger after.tasks[i], after.tasks[j]]
                0 <= i < after.tasks.len() && 0 <= j < after.tasks.len() && i != j
                    implies !same_slot(after.tasks[i], after.tasks[j]) by {
                if i == n {
                    assert(!(st.tasks[j].room_id == p.room_id && st.tasks[j].scheduled_date@
                        == p.scheduled_date@ && is_open(st.tasks[j].status)));
                } else if j == n {
                    assert(!(st.tasks[i].room_id == p.room_id && st.tasks[i].scheduled_date@
                        == p.scheduled_date@ && is_open(st.tasks[i].status)));
                } else {
                    assert(st.tasks[i] == after.tasks[i] && st.tasks[j] == after.tasks[j]);
                }
            }
        }
        assert(t.scheduled_date == p.scheduled_date);
        if st.texts_filled() {
            assert(after.texts_filled());
        }
    }
}

/// Changing a task keeps each rule that held before; no room gets two open
/// tasks on one date as long as task identifiers are distinct. The taken
/// room numbers stay as they were.
pub proof fn lemma_update_task_keeps_rules(
    st: StoreView,
    id: u128,
    p: UpdateCleaningTask,
    now: NaiveDateTime,
)
    ensures
        ({
            let after = st.update_task(id, p, now).0;
            &&& st.references_resolve() ==> after.references_resolve()
            &&& st.cleaner_ids_distinct() ==> after.cleaner_ids_distinct()
            &&& st.room_ids_distinct() ==> after.room_ids_distinct()
            &&& st.task_ids_distinct() ==> after.task_ids_distinct()
            &&& st.texts_filled() ==> after.texts_filled()
            &&& st.room_numbers_distinct() ==> after.room_numbers_distinct()
            &&& st.slots_distinct() && st.task_ids_distinct() ==> after.slots_distinct()
            &&& st.consistent() ==> after.consistent()
            &&& forall|n: Seq<char>| #[trigger] after.number_taken(n) == st.number_taken(n)
        }),
{
    lemma_first_index(task_ids(st.tasks), id);
    let after = st.update_task(id, p, now).0;
    if let Some(i) = st.index_of_task(id) {
        if st.task_update_refusal(i, p) is None {
            let rooms = st.rooms_after_task_update(i, p);
            lemma_rooms_after_task_update_keeps(st, i, p);
            lemma_same_rooms(st, rooms);
            assert forall|m: Seq<char>| #[trigger] after.number_taken(m) == st.number_taken(m) by {
                assert((StoreView { rooms, ..st }).number_taken(m) == st.number_taken(m));
            }
            let cur = st.tasks[i];
            let t = after.tasks[i];
            assert(cur.id == id);
            if st.references_resolve() {
                assert(st.knows_cleaner(cur.cleaner_id) && st.knows_room(cur.room_id));
                assert forall|j: int| #![trigger after.tasks[j]] 0 <= j < after.tasks.len() implies after.knows_cleaner(
                    after.tasks[j].cleaner_id,
                ) && after.knows_room(after.tasks[j].room_id) by {
                    if j != i {
                        assert(st.tasks[j] == after.tasks[j]);
                    }
                }
            }
            if st.task_ids_distinct() {
                assert forall|a: int, b: int|
                    #![trigger after.tasks[a], after.tasks[b]]
                    0 <= a < after.tasks.len() && 0 <= b < after.tasks.len() && a != b
                        implies after.tasks[a].id != after.tasks[b].id by {
                    assert(st.tasks[a].id != st.tasks[b].id);
                }
            }
            let date = match p.scheduled_date {
                Some(d) => d@,
                None => cur.scheduled_date@,
            };
            assert(t.scheduled_date@ == date);
            if st.slots_distinct() && st.task_ids_distinct() {
                assert forall|a: int, b: int|
                    #![trigger after.tasks[a], after.tasks[b]]
                    0 <= a < after.tasks.len() && 0 <= b < after.tasks.len() && a != b
                        implies !same_slot(after.tasks[a], after.tasks[b]) by {
                    if a == i || b == i {
                        let o = if a == i {
                            b
                        } else {
                            a
                        };
                        assert(st.tasks[o].id != id);
                        assert(after.tasks[o] == st.tasks[o]);
                        assert(!(st.tasks[o].room_id == t.room_id && st.tasks[o].scheduled_date@
                            == date && is_open(st.tasks[o].status) && st.tasks[o].id != cur.id));
                    } else {
                        assert(st.tasks[a] == after.tasks[a] && st.tasks[b] == after.tasks[b]);
                    }
                }
            }
            if st.texts_filled() {
                assert(after.texts_filled());
            }
        }
    }
}

/// Moving a task on keeps each rule that held before, and the taken room
/// numbers.
pub proof fn lemma_update_task_progress_keeps_rules(
    st: StoreView,
    id: u128,
    p: UpdateProgress,
    now: NaiveDateTime,
)
    ensures
        ({
            let after = st.update_task_progress(id, p, now).0;
            &&& st.references_resolve() ==> after.references_resolve()
            &&& st.cleaner_ids_distinct() ==> after.cleaner_ids_distinct()
            &&& st.room_ids_distinct() ==> after.room_ids_distinct()
            &&& st.task_ids_distinct() ==> after.task_ids_distinct()
            &&& st.texts_filled() ==> after.texts_filled()
            &&& st.room_numbers_distinct() ==> after.room_numbers_distinct()
            &&& st.slots_distinct() ==> after.slots_distinct()
            &&& st.consistent() ==> after.consistent()
            &&& forall|n: Seq<char>| #[trigger] after.number_taken(n) == st.number_taken(n)
        }),
{
    lemma_first_index(task_ids(st.tasks), id);
    let after = st.update_task_progress(id, p, now).0;
    if let Some(i) = st.index_of_task(id) {
        if progress_refusal(st.tasks[i].status, p.status) is None {
            let rooms = st.rooms_after_progress(i, p.status);
            lemma_rooms_after_progress_keeps(st, i, p.status);
            lemma_same_rooms(st, rooms);
            assert forall|m: Seq<char>| #[trigger] after.number_taken(m) == st.number_taken(m) by {
                assert((StoreView { rooms, ..st }).number_taken(m) == st.number_taken(m));
            }
            let cur = st.tasks[i];
            let t = after.tasks[i];
            if st.references_resolve() {
                assert forall|j: int| #![trigger after.tasks[j]] 0 <= j < after.tasks.len() implies after.knows_cleaner(
                    after.tasks[j].cleaner_id,
                ) && after.knows_room(after.tasks[j].room_id) by {
                    assert(st.tasks[j].cleaner_id == after.tasks[j].cleaner_id);
                    assert(st.tasks[j].room_id == after.tasks[j].room_id);
                }
            }
            if st.task_ids_distinct() {
                assert forall|a: int, b: int|
                    #![trigger after.tasks[a], after.tasks[b]]
                    0 <= a < after.tasks.len() && 0 <= b < after.tasks.len() && a != b
                        implies after.tasks[a].id != after.tasks[b].id by {
                    assert(st.tasks[a].id != st.tasks[b].id);
                }
            }
            if st.slots_distinct() {
                assert forall|a: int, b: int|
                    #![trigger after.tasks[a], after.tasks[b]]
                    0 <= a < after.tasks.len() && 0 <= b < after.tasks.len() && a != b
                        implies !same_slot(after.tasks[a], after.tasks[b]) by {
                    assert(!same_slot(st.tasks[a], st.tasks[b]));
                    if a == i || b == i {
                        assert(is_open(t.status) ==> is_open(cur.status));
                    }
                }
            }
            if st.texts_filled() {
                assert(after.texts_filled());
            }
        }
    }
}

/// Removing a task keeps each rule that held before, and the taken room
/// numbers.
pub proof fn lemma_delete_task_keeps_rules(st: StoreView, id: u128)
    ensures
        ({
            let after = st.delete_task(id).0;
            &&& st.references_resolve() ==> after.references_resolve()
            &&& st.cleaner_ids_distinct() ==> after.cleaner_ids_distinct()
            &&& st.room_ids_distinct() ==> after.room_ids_distinct()
            &&& st.task_ids_distinct() ==> after.task_ids_distinct()
            &&& st.texts_filled() ==> after.texts_filled()
            &&& st.room_numbers_distinct() ==> after.room_numbers_distinct()
            &&& st.slots_distinct() ==> after.slots_distinct()
            &&& st.consistent() ==> after.consistent()
            &&& forall|n: Seq<char>| #[trigger] after.number_taken(n) == st.number_taken(n)
        }),
{
    lemma_first_index(task_ids(st.tasks), id);
    let after = st.delete_task(id).0;
    if let Some(i) = st.index_of_task(id) {
        let room = st.tasks[i].room_id;
        let a = crate::models::RoomStatus::Available;
        lemma_set_room_status_keeps(st.rooms, room, a);
        lemma_same_rooms(st, after.rooms);
        assert forall|m: Seq<char>| #[trigger] after.number_taken(m) == st.number_taken(m) by {
            assert((StoreView { rooms: after.rooms, ..st }).number_taken(m) == st.number_taken(m));
        }
        let pred = task_other_than(id);
        let f = st.tasks.filter(pred);
        lemma_filter_pairwise(st.tasks, pred, |x: CleaningTask, y: CleaningTask| true);
        if st.references_resolve() {
            assert forall|j: int| #![trigger f[j]] 0 <= j < f.len() implies after.knows_cleaner(
                f[j].cleaner_id,
            ) && after.knows_room(f[j].room_id) by {
                let k = choose|k: int| 0 <= k < st.tasks.len() && st.tasks[k] == #[trigger] f[j];
            }
            assert(after.references_resolve());
        }
        if st.texts_filled() {
            assert forall|j: int| #![trigger f[j]] 0 <= j < f.len() implies !is_blank(f[j].scheduled_date@) by {
                let k = choose|k: int| 0 <= k < st.tasks.len() && st.tasks[k] == #[trigger] f[j];
            }
            assert(after.texts_filled());
        }
        if st.task_ids_distinct() {
            lemma_filter_pairwise(st.tasks, pred, |x: CleaningTask, y: CleaningTask| x.id != y.id);
            assert forall|x: int, y: int|
                #![trigger f[x], f[y]]
                0 <= x < f.len() && 0 <= y < f.len() && x != y implies f[x].id != f[y].id by {
                assert((|x: CleaningTask, y: CleaningTask| x.id != y.id)(f[x], f[y]));
            }
        }
        if st.slots_distinct() {
            lemma_filter_pairwise(st.tasks, pred, |x: CleaningTask, y: CleaningTask| !same_slot(x, y));
            assert forall|x: int, y: int|
                #![trigger f[x], f[y]]
                0 <= x < f.len() && 0 <= y < f.len() && x != y implies !same_slot(f[x], f[y]) by {
                assert((|x: CleaningTask, y: CleaningTask| !same_slot(x, y))(f[x], f[y]));
            }
        }
    }
}

/// While a room number is taken, a request to add a room with that number
/// is refused and leaves the store as it was.
pub proof fn lemma_taken_number_refused(st: StoreView, p: CreateRoom, id: u128, now: NaiveDateTime)
    requires
        st.number_taken(p.room_number@),
    ensures
        st.create_room(p, id, now).0 == st,
        st.create_room(p, id, now).1 is Err,
{
}

/// The empty store keeps the rules.
pub proof fn lemma_empty_consistent(st: StoreView)
    requires
        st.cleaners.len() == 0,
        st.rooms.len() == 0,
        st.tasks.len() == 0,
    ensures
        st.consistent(),
{
}

/// A cleaner added under a fresh identifier is what a later lookup of that
/// identifier finds.
pub proof fn lemma_get_created_cleaner(st: StoreView, p: CreateCleaner, id: u128, now: NaiveDateTime)
    requires
        !st.knows_cleaner(id),
    ensures
        ({
            let (after, r) = st.create_cleaner(p, id, now);
            r matches Ok(c) ==> after.get_cleaner(id) == Ok::<Cleaner, AppErrorView>(c)
        }),
{
    let (after, r) = st.create_cleaner(p, id, now);
    if r is Ok {
        let n = st.cleaners.len() as int;
        lemma_knows_cleaner(st.cleaners, id);
        assert(is_first(cleaner_ids(after.cleaners), id, n));
        lemma_first_index(cleaner_ids(after.cleaners), id);
    }
}

/// A changed cleaner is what a later lookup finds.
pub proof fn lemma_get_updated_cleaner(st: StoreView, id: u128, p: UpdateCleaner)
    ensures
        ({
            let (after, r) = st.update_cleaner(id, p);
            r matches Ok(c) ==> after.get_cleaner(id) == Ok::<Cleaner, AppErrorView>(c)
        }),
{
    lemma_first_index(cleaner_ids(st.cleaners), id);
    let (after, r) = st.update_cleaner(id, p);
    if r is Ok {
        assert(cleaner_ids(after.cleaners) =~= cleaner_ids(st.cleaners));
    }
}

/// A removed cleaner is not found afterwards.
pub proof fn lemma_get_deleted_cleaner(st: StoreView, id: u128)
    ensures
        ({
            let (after, r) = st.delete_cleaner(id);
            r is Ok ==> after.get_cleaner(id) == Err::<Cleaner, AppErrorView>(AppErrorView::NotFound)
        }),
{
    let (after, r) = st.delete_cleaner(id);
    if r is Ok {
        let f = after.cleaners;
        assert forall|j: int| 0 <= j < f.len() implies f[j].id != id by {
            st.cleaners.lemma_filter_pred(cleaner_other_than(id), j);
        }
        lemma_knows_cleaner(f, id);
        lemma_first_index(cleaner_ids(f), id);
    }
}

/// A room added under a fresh identifier is what a later lookup of that
/// identifier finds.
pub proof fn lemma_get_created_room(st: StoreView, p: CreateRoom, id: u128, now: NaiveDateTime)
    requires
        !st.knows_room(id),
    ensures
        ({
            let (after, r) = st.create_room(p, id, now);
            r matches Ok(x) ==> after.get_room(id) == Ok::<Room, AppErrorView>(x)
        }),
{
    let (after, r) = st.create_room(p, id, now);
    if r is Ok {
        let n = st.rooms.len() as int;
        lemma_knows_room(st.rooms, id);
        assert(is_first(room_ids(after.rooms), id, n));
        lemma_first_index(room_ids(after.rooms), id);
    }
}

/// A changed room is what a later lookup finds.
pub proof fn lemma_get_updated_room(st: StoreView, id: u128, p: UpdateRoom)
    ensures
        ({
            let (after, r) = st.update_room(id, p);
            r matches Ok(x) ==> after.get_room(id) == Ok::<Room, AppErrorView>(x)
        }),
{
    lemma_first_index(room_ids(st.rooms), id);
    let (after, r) = st.update_room(id, p);
    if r is Ok {
        assert(room_ids(after.rooms) =~= room_ids(st.rooms));
    }
}

/// A removed room is not found afterwards.
pub proof fn lemma_get_deleted_room(st: StoreView, id: u128)
    ensures
        ({
            let (after, r) = st.delete_room(id);
            r is Ok ==> after.get_room(id) == Err::<Room, AppErrorView>(AppErrorView::NotFound)
        }),
{
    let (after, r) = st.delete_room(id);
    if r is Ok {
        let f = after.rooms;
        assert forall|j: int| 0 <= j < f.len() implies f[j].id != id by {
            st.rooms.lemma_filter_pred(room_other_than(id), j);
        }
        lemma_knows_room(f, id);
        lemma_first_index(room_ids(f), id);
    }
}

/// A task scheduled under a fresh identifier is what a later lookup of that
/// identifier finds, with the same cleaner and room.
pub proof fn lemma_get_created_task(
    st: StoreView,
    p: CreateCleaningTask,
    id: u128,
    now: NaiveDateTime,
)
    requires
        !task_ids(st.tasks).contains(id),
    ensures
        ({
            let (after, r) = st.create_task(p, id, now);
            r matches Ok(d) ==> after.get_task(id) == Ok::<
                crate::models::CleaningTaskDetail,
                AppErrorView,
            >(d)
        }),
{
    let (after, r) = st.create_task(p, id, now);
    if r is Ok {
        let n = st.tasks.len() as int;
        lemma_knows_task(st.tasks, id);
        assert(is_first(task_ids(after.tasks), id, n));
        lemma_first_index(task_ids(after.tasks), id);
        let rooms = after.rooms;
        lemma_set_room_status_keeps(st.rooms, p.room_id, crate::models::RoomStatus::Cleaning);
        lemma_first_index(cleaner_ids(after.cleaners), p.cleaner_id);
        lemma_first_index(room_ids(after.rooms), p.room_id);
        lemma_first_index(room_ids(st.rooms), p.room_id);
    }
}

/// A changed task is what a later lookup finds.
pub proof fn lemma_get_updated_task(st: StoreView, id: u128, p: UpdateCleaningTask, now: NaiveDateTime)
    requires
        st.task_update_resolvable(id, p),
    ensures
        ({
            let (after, r) = st.update_task(id, p, now);
            r matches Ok(d) ==> after.get_task(id) == Ok::<
                crate::models::CleaningTaskDetail,
                AppErrorView,
            >(d)
        }),
{
    lemma_first_index(task_ids(st.tasks), id);
    let (after, r) = st.update_task(id, p, now);
    if let Some(i) = st.index_of_task(id) {
        if r is Ok {
            assert(task_ids(after.tasks) =~= task_ids(st.tasks));
            lemma_rooms_after_task_update_keeps(st, i, p);
            let t = after.tasks[i];
            assert(room_ids(after.rooms) =~= room_ids(st.rooms));
            lemma_first_index(cleaner_ids(after.cleaners), t.cleaner_id);
            lemma_first_index(room_ids(after.rooms), t.room_id);
            lemma_first_index(room_ids(st.rooms), t.room_id);
        }
    }
}

/// The steps that a progress update allows: a pending task starts, a task
/// in progress completes, and an open task is cancelled.
pub open spec fn allowed_step(from: TaskStatus, to: TaskStatus) -> bool {
    ||| from is Pending && to is InProgress
    ||| from is InProgress && to is Completed
    ||| is_open(from) && to is Cancelled
}

/// A progress update goes through exactly on the allowed steps; then the
/// task is in the new status, a later lookup finds what the update
/// answered, and a start puts the task's room into cleaning while a
/// completion makes it available.
pub proof fn lemma_progress_steps(st: StoreView, id: u128, p: UpdateProgress, now: NaiveDateTime)
    requires
        st.progress_resolvable(id, p),
    ensures
        forall|from: TaskStatus, to: TaskStatus|
            #[trigger] progress_refusal(from, to) is None <==> allowed_step(from, to),
        ({
            let (after, r) = st.update_task_progress(id, p, now);
            r matches Ok(d) ==> {
                &&& allowed_step(st.task_at(id).unwrap().status, p.status)
                &&& after.task_at(id).unwrap().status == p.status
                &&& after.get_task(id) == Ok::<crate::models::CleaningTaskDetail, AppErrorView>(d)
                &&& p.status is InProgress ==> d.room.status is Cleaning
                &&& p.status is Completed ==> d.room.status is Available
            }
        }),
{
    lemma_first_index(task_ids(st.tasks), id);
    let (after, r) = st.update_task_progress(id, p, now);
    if let Some(i) = st.index_of_task(id) {
        if r is Ok {
            assert(task_ids(after.tasks) =~= task_ids(st.tasks));
            lemma_rooms_after_progress_keeps(st, i, p.status);
            let t = after.tasks[i];
            assert(room_ids(after.rooms) =~= room_ids(st.rooms));
            lemma_first_index(cleaner_ids(after.cleaners), t.cleaner_id);
            lemma_first_index(room_ids(after.rooms), t.room_id);
            lemma_first_index(room_ids(st.rooms), t.room_id);
        }
    }
}

/// A removed task is not found afterwards.
pub proof fn lemma_get_deleted_task(st: StoreView, id: u128)
    ensures
        ({
            let (after, r) = st.delete_task(id);
            r is Ok ==> after.get_task(id) == Err::<
                crate::models::CleaningTaskDetail,
                AppErrorView,
            >(AppErrorView::NotFound)
        }),
{
    let (after, r) = st.delete_task(id);
    if r is Ok {
        let f = after.tasks;
        assert forall|j: int| 0 <= j < f.len() implies f[j].id != id by {
            st.tasks.lemma_filter_pred(task_other_than(id), j);
        }
        lemma_knows_task(f, id);
        lemma_first_index(task_ids(f), id);
    }
}

/// When every task's cleaner and room are in the store, the task list shows
/// every task, in order, and no lookup of a task fails for a missing
/// cleaner or room.
pub proof fn lemma_resolved_store_lists_every_task(st: StoreView)
    requires
        st.references_resolve(),
    ensures
        st.list_tasks().len() == st.tasks.len(),
        forall|j: int|
            0 <= j < st.tasks.len() ==> st.resolve(#[trigger] st.tasks[j]) == Some(
                st.list_tasks()[j],
            ),
        forall|id: u128| st.get_task(id) != Err::<crate::models::CleaningTaskDetail, AppErrorView>(
            AppErrorView::InternalServerError,
        ),
{
    lemma_resolved_prefix(st, st.tasks.len() as int);
    assert(st.tasks.take(st.tasks.len() as int) =~= st.tasks);
    assert forall|id: u128| st.get_task(id) != Err::<crate::models::CleaningTaskDetail, AppErrorView>(
        AppErrorView::InternalServerError,
    ) by {
        lemma_first_index(task_ids(st.tasks), id);
        if let Some(i) = st.index_of_task(id) {
            let t = st.tasks[i];
            lemma_first_index(cleaner_ids(st.cleaners), t.cleaner_id);
            lemma_first_index(room_ids(st.rooms), t.room_id);
        }
    }
}

proof fn lemma_resolved_prefix(st: StoreView, n: int)
    requires
        st.references_resolve(),
        0 <= n <= st.tasks.len(),
    ensures
        st.tasks.take(n).filter_map(st.resolver()).len() == n,
        forall|j: int|
            0 <= j < n ==> st.resolve(#[trigger] st.tasks[j]) == Some(
                st.tasks.take(n).filter_map(st.resolver())[j],
            ),
    decreases n,
{
    if n > 0 {
        lemma_resolved_prefix(st, n - 1);
        assert(st.tasks.take(n).drop_last() =~= st.tasks.take(n - 1));
        let t = st.tasks[n - 1];
        lemma_first_index(cleaner_ids(st.cleaners), t.cleaner_id);
        lemma_first_index(room_ids(st.rooms), t.room_id);
        assert(st.resolve(t) is Some);
    }
}

/// When every task's cleaner and room are in the store, every change and
/// every progress step of a task can show the task afterwards.
pub proof fn lemma_resolved_store_shows_updates(
    st: StoreView,
    id: u128,
    p: UpdateCleaningTask,
    q: UpdateProgress,
)
    requires
        st.references_resolve(),
    ensures
        st.task_update_resolvable(id, p),
        st.progress_resolvable(id, q),
{
    lemma_first_index(task_ids(st.tasks), id);
}

} // verus!
