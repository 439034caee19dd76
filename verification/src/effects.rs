//! What each request does, field by field: which values a created or
//! changed record takes from the request, and which rooms a task change
//! frees or marks for cleaning. Each law speaks of the request's inputs and
//! of the store and answer that it yields.

use crate::error::{AppErrorView, Rejection, bad};
use crate::models::{
    Cleaner, CleaningTask, CreateCleaner, CreateCleaningTask, CreateRoom, Room, RoomStatus,
    TaskStatus, UpdateCleaner, UpdateCleaningTask, UpdateProgress, UpdateRoom, is_open,
};
use crate::state::{
    StoreView, cleaner_ids, lemma_first_index, room_ids, set_room_status, task_ids,
};
use crate::text::is_blank;
use chrono::NaiveDateTime;
use vstd::prelude::*;

verus! {

/// No open task that carries an identifier other than `id` is for room
/// `room`.
pub open spec fn no_other_open_task(st: StoreView, room: u128, id: u128) -> bool {
    forall|j: int|
        #![trigger st.tasks[j]]
        0 <= j < st.tasks.len() && st.tasks[j].room_id == room && st.tasks[j].id != id
            ==> !is_open(st.tasks[j].status)
}

/// `r` with its status replaced by `s`.
pub open spec fn with_status(r: Room, s: RoomStatus) -> Room {
    Room { status: s, ..r }
}

/// The room `o`, if there is one, with its status replaced by `s`.
pub open spec fn in_status(o: Option<Room>, s: RoomStatus) -> Option<Room> {
    match o {
        Some(r) => Some(with_status(r, s)),
        None => None,
    }
}

/// Putting the first room that carries `x` into status `s` changes that
/// room's status and nothing else that a lookup by identifier sees.
proof fn lemma_room_after_set(st: StoreView, x: u128, s: RoomStatus, y: u128)
    ensures
        ({
            let after = StoreView { rooms: set_room_status(st.rooms, x, s), ..st };
            &&& y != x ==> after.room_at(y) == st.room_at(y)
            &&& y == x ==> after.room_at(y) == in_status(st.room_at(y), s)
        }),
{
    let rooms = set_room_status(st.rooms, x, s);
    lemma_first_index(room_ids(st.rooms), x);
    lemma_first_index(room_ids(st.rooms), y);
    assert(room_ids(rooms) =~= room_ids(st.rooms));
    lemma_first_index(room_ids(rooms), y);
}

/// A change of a task that sets it Cancelled and goes through frees the
/// task's room (the new one when the change moves it) when no other open
/// task is for that room, and leaves that room as it was when one is; the
/// answer shows the room as it is afterwards.
pub proof fn lemma_update_task_cancel_frees_room(
    st: StoreView,
    id: u128,
    p: UpdateCleaningTask,
    now: NaiveDateTime,
)
    requires
        p.status == Some(TaskStatus::Cancelled),
    ensures
        ({
            let (after, r) = st.update_task(id, p, now);
            let room = match p.room_id {
                Some(x) => x,
                None => st.task_at(id).unwrap().room_id,
            };
            r is Ok ==> {
                &&& no_other_open_task(st, room, id) ==> after.room_at(room) == in_status(
                    st.room_at(room),
                    RoomStatus::Available,
                )
                &&& !no_other_open_task(st, room, id) ==> after.room_at(room) == st.room_at(room)
                &&& r matches Ok(d) ==> Some(d.room) == after.room_at(room) || after.room_at(
                    room,
                ) is None
            }
        }),
{
    lemma_first_index(crate::state::task_ids(st.tasks), id);
    let (after, r) = st.update_task(id, p, now);
    if let Some(i) = st.index_of_task(id) {
        if st.task_update_refusal(i, p) is None {
            let cur = st.tasks[i];
            let room = or_keep_room(p.room_id, cur.room_id);
            assert(cur.id == id);
            let a = RoomStatus::Available;
            let busy = st.room_busy_except(room, cur.id);
            assert(busy == !no_other_open_task(st, room, id));
            let first = if busy {
                st.rooms
            } else {
                set_room_status(st.rooms, room, a)
            };
            let mid = StoreView { rooms: first, ..st };
            lemma_room_after_set(st, room, a, room);
            if cur.room_id != room {
                lemma_room_after_set(mid, cur.room_id, a, room);
            }
            assert(after.rooms == st.rooms_after_task_update(i, p));
            assert((StoreView { rooms: after.rooms, ..st }).room_at(room) == after.room_at(room));
        }
    }
}

/// The room that a change of a task moves it to.
spec fn or_keep_room(o: Option<u128>, d: u128) -> u128 {
    match o {
        Some(v) => v,
        None => d,
    }
}

/// A progress step that goes through puts the task into the requested
/// status at time `now` and changes nothing else of it; it marks the task's
/// room for cleaning on a start, frees it on a completion, and on a
/// cancellation frees it when no other open task is for that room and
/// leaves it as it was when one is. The answer shows the task as it is
/// afterwards.
pub proof fn lemma_progress_effects(st: StoreView, id: u128, p: UpdateProgress, now: NaiveDateTime)
    ensures
        ({
            let (after, r) = st.update_task_progress(id, p, now);
            let old = st.task_at(id).unwrap();
            let room = old.room_id;
            r is Ok ==> {
                &&& after.task_at(id) == Some(CleaningTask { status: p.status, updated_at: now, ..old })
                &&& after.cleaners == st.cleaners
                &&& after.tasks.len() == st.tasks.len()
                &&& forall|j: int|
                    0 <= j < st.tasks.len() && j != st.index_of_task(id).unwrap() ==> #[trigger] after.tasks[j]
                        == st.tasks[j]
                &&& forall|y: u128| y != room ==> #[trigger] after.room_at(y) == st.room_at(y)
                &&& p.status is InProgress ==> after.room_at(room) == in_status(
                    st.room_at(room),
                    RoomStatus::Cleaning,
                )
                &&& p.status is Completed ==> after.room_at(room) == in_status(
                    st.room_at(room),
                    RoomStatus::Available,
                )
                &&& p.status is Cancelled && no_other_open_task(st, room, id) ==> after.room_at(room)
                    == in_status(st.room_at(room), RoomStatus::Available)
                &&& p.status is Cancelled && !no_other_open_task(st, room, id) ==> after.room_at(room)
                    == st.room_at(room)
                &&& r matches Ok(d) ==> {
                    &&& d.id == id
                    &&& d.status == p.status
                    &&& d.updated_at == now
                    &&& d.created_at == old.created_at
                    &&& d.scheduled_date == old.scheduled_date
                    &&& d.remarks == old.remarks
                    &&& after.room_at(room) is Some ==> Some(d.room) == after.room_at(room)
                }
            }
        }),
{
    lemma_first_index(crate::state::task_ids(st.tasks), id);
    let (after, r) = st.update_task_progress(id, p, now);
    if let Some(i) = st.index_of_task(id) {
        let cur = st.tasks[i];
        if crate::model::progress_refusal(cur.status, p.status) is None {
            assert(cur.id == id);
            let room = cur.room_id;
            assert(st.room_busy_except(room, cur.id) == !no_other_open_task(st, room, id));
            lemma_room_after_set(st, room, RoomStatus::Available, room);
            lemma_room_after_set(st, room, RoomStatus::Cleaning, room);
            assert((StoreView { rooms: after.rooms, ..st }).room_at(room) == after.room_at(room));
            assert forall|y: u128| y != room implies #[trigger] after.room_at(y) == st.room_at(y) by {
                lemma_room_after_set(st, room, RoomStatus::Available, y);
                lemma_room_after_set(st, room, RoomStatus::Cleaning, y);
                assert((StoreView { rooms: after.rooms, ..st }).room_at(y) == after.room_at(y));
            }
            assert(crate::state::task_ids(after.tasks) =~= crate::state::task_ids(st.tasks));
            lemma_first_index(crate::state::task_ids(after.tasks), id);
        }
    }
}

/// A task scheduled with request `p` under identifier `id` at time `now`
/// carries the request's cleaner, room, date and remarks, starts Pending,
/// is created and updated at `now`, and is added after every task already
/// there; its room is marked for cleaning. The answer shows that task.
pub proof fn lemma_create_task_effects(
    st: StoreView,
    p: CreateCleaningTask,
    id: u128,
    now: NaiveDateTime,
)
    ensures
        ({
            let (after, r) = st.create_task(p, id, now);
            r is Ok ==> {
                &&& after.tasks.len() == st.tasks.len() + 1
                &&& after.tasks.subrange(0, st.tasks.len() as int) == st.tasks
                &&& after.tasks.last().id == id
                &&& after.tasks.last().cleaner_id == p.cleaner_id
                &&& after.tasks.last().room_id == p.room_id
                &&& after.tasks.last().status == TaskStatus::Pending
                &&& after.tasks.last().scheduled_date == p.scheduled_date
                &&& after.tasks.last().remarks == p.remarks
                &&& after.tasks.last().created_at == now
                &&& after.tasks.last().updated_at == now
                &&& after.cleaners == st.cleaners
                &&& after.room_at(p.room_id) == in_status(st.room_at(p.room_id), RoomStatus::Cleaning)
                &&& forall|y: u128| y != p.room_id ==> #[trigger] after.room_at(y) == st.room_at(y)
                &&& r matches Ok(d) ==> {
                    &&& d.id == id
                    &&& d.status == TaskStatus::Pending
                    &&& d.scheduled_date == p.scheduled_date
                    &&& d.remarks == p.remarks
                    &&& d.created_at == now
                    &&& d.updated_at == now
                    &&& Some(d.cleaner) == st.cleaner_at(p.cleaner_id)
                    &&& Some(d.room) == after.room_at(p.room_id)
                }
            }
        }),
{
    let (after, r) = st.create_task(p, id, now);
    if r is Ok {
        assert(after.tasks.subrange(0, st.tasks.len() as int) =~= st.tasks);
        lemma_room_after_set(st, p.room_id, RoomStatus::Cleaning, p.room_id);
        lemma_first_index(room_ids(st.rooms), p.room_id);
        lemma_first_index(crate::state::cleaner_ids(st.cleaners), p.cleaner_id);
        assert((StoreView { rooms: after.rooms, ..st }).room_at(p.room_id) == after.room_at(p.room_id));
        assert forall|y: u128| y != p.room_id implies #[trigger] after.room_at(y) == st.room_at(y) by {
            lemma_room_after_set(st, p.room_id, RoomStatus::Cleaning, y);
            assert((StoreView { rooms: after.rooms, ..st }).room_at(y) == after.room_at(y));
        }
    }
}

/// A change of room `id` that goes through sets each field that the request
/// gives and keeps each one it leaves absent; the room keeps its identifier
/// and creation time, and a later lookup finds what the change answered.
pub proof fn lemma_update_room_effects(st: StoreView, id: u128, p: UpdateRoom)
    ensures
        ({
            let (after, r) = st.update_room(id, p);
            let old = st.room_at(id).unwrap();
            r matches Ok(x) ==> {
                &&& after.room_at(id) == Some(x)
                &&& x.id == id
                &&& x.created_at == old.created_at
                &&& (p.room_number matches Some(n) ==> x.room_number == n)
                &&& (p.room_number is None ==> x.room_number == old.room_number)
                &&& (p.floor matches Some(f) ==> x.floor == f)
                &&& (p.floor is None ==> x.floor == old.floor)
                &&& (p.room_type matches Some(t) ==> x.room_type == t)
                &&& (p.room_type is None ==> x.room_type == old.room_type)
                &&& (p.status matches Some(s) ==> x.status == s)
                &&& (p.status is None ==> x.status == old.status)
                &&& after.rooms.len() == st.rooms.len()
                &&& forall|j: int|
                    0 <= j < st.rooms.len() && j != st.index_of_room(id).unwrap() ==> #[trigger] after.rooms[j]
                        == st.rooms[j]
                &&& after.cleaners == st.cleaners
                &&& after.tasks == st.tasks
            }
        }),
{
    lemma_first_index(room_ids(st.rooms), id);
    let (after, r) = st.update_room(id, p);
    if r is Ok {
        assert(room_ids(after.rooms) =~= room_ids(st.rooms));
    }
}

/// A change of cleaner `id` that goes through sets each field that the
/// request gives and keeps each one it leaves absent; the cleaner keeps its
/// identifier and creation time, and a later lookup finds what the change
/// answered.
pub proof fn lemma_update_cleaner_effects(st: StoreView, id: u128, p: UpdateCleaner)
    ensures
        ({
            let (after, r) = st.update_cleaner(id, p);
            let old = st.cleaner_at(id).unwrap();
            r matches Ok(c) ==> {
                &&& after.cleaner_at(id) == Some(c)
                &&& c.id == id
                &&& c.created_at == old.created_at
                &&& (p.name matches Some(n) ==> c.name == n)
                &&& (p.name is None ==> c.name == old.name)
                &&& (p.phone matches Some(ph) ==> c.phone == ph)
                &&& (p.phone is None ==> c.phone == old.phone)
                &&& after.cleaners.len() == st.cleaners.len()
                &&& forall|j: int|
                    0 <= j < st.cleaners.len() && j != st.index_of_cleaner(id).unwrap()
                        ==> #[trigger] after.cleaners[j] == st.cleaners[j]
                &&& after.rooms == st.rooms
                &&& after.tasks == st.tasks
            }
        }),
{
    lemma_first_index(crate::state::cleaner_ids(st.cleaners), id);
    let (after, r) = st.update_cleaner(id, p);
    if r is Ok {
        assert(crate::state::cleaner_ids(after.cleaners) =~= crate::state::cleaner_ids(st.cleaners));
    }
}

/// Some cleaner carries `id`.
pub open spec fn has_cleaner(st: StoreView, id: u128) -> bool {
    exists|k: int| 0 <= k < st.cleaners.len() && #[trigger] st.cleaners[k].id == id
}

/// Some room carries `id`.
pub open spec fn has_room(st: StoreView, id: u128) -> bool {
    exists|k: int| 0 <= k < st.rooms.len() && #[trigger] st.rooms[k].id == id
}

/// Some task carries `id`.
pub open spec fn has_task(st: StoreView, id: u128) -> bool {
    exists|k: int| 0 <= k < st.tasks.len() && #[trigger] st.tasks[k].id == id
}

proof fn lemma_has(st: StoreView, c: u128, r: u128, t: u128)
    ensures
        st.knows_cleaner(c) <==> has_cleaner(st, c),
        st.knows_room(r) <==> has_room(st, r),
        task_ids(st.tasks).contains(t) <==> has_task(st, t),
        st.index_of_cleaner(c) is Some <==> has_cleaner(st, c),
        st.index_of_room(r) is Some <==> has_room(st, r),
        st.index_of_task(t) is Some <==> has_task(st, t),
{
    lemma_first_index(cleaner_ids(st.cleaners), c);
    lemma_first_index(room_ids(st.rooms), r);
    lemma_first_index(task_ids(st.tasks), t);
    if has_cleaner(st, c) {
        let k = choose|k: int| 0 <= k < st.cleaners.len() && #[trigger] st.cleaners[k].id == c;
        assert(cleaner_ids(st.cleaners)[k] == c);
    }
    if has_room(st, r) {
        let k = choose|k: int| 0 <= k < st.rooms.len() && #[trigger] st.rooms[k].id == r;
        assert(room_ids(st.rooms)[k] == r);
    }
    if has_task(st, t) {
        let k = choose|k: int| 0 <= k < st.tasks.len() && #[trigger] st.tasks[k].id == t;
        assert(task_ids(st.tasks)[k] == t);
    }
}

/// A lookup by identifier answers a record that carries the identifier,
/// the first such in the store, and answers NotFound exactly when no record
/// carries it.
pub proof fn lemma_lookups(st: StoreView, id: u128)
    ensures
        st.get_cleaner(id) is Err <==> !has_cleaner(st, id),
        st.get_cleaner(id) matches Err(e) ==> e == AppErrorView::NotFound,
        st.get_cleaner(id) matches Ok(c) ==> exists|k: int|
            0 <= k < st.cleaners.len() && st.cleaners[k] == c && c.id == id && forall|j: int|
                0 <= j < k ==> #[trigger] st.cleaners[j].id != id,
        st.get_room(id) is Err <==> !has_room(st, id),
        st.get_room(id) matches Err(e) ==> e == AppErrorView::NotFound,
        st.get_room(id) matches Ok(r) ==> exists|k: int|
            0 <= k < st.rooms.len() && st.rooms[k] == r && r.id == id && forall|j: int|
                0 <= j < k ==> #[trigger] st.rooms[j].id != id,
        st.get_task(id) matches Err(AppErrorView::NotFound) <==> !has_task(st, id),
        st.get_task(id) matches Err(e) ==> e == AppErrorView::NotFound || e
            == AppErrorView::InternalServerError,
        st.get_task(id) matches Ok(d) ==> exists|k: int|
            0 <= k < st.tasks.len() && st.tasks[k].id == id && (forall|j: int|
                0 <= j < k ==> #[trigger] st.tasks[j].id != id) && d.id == id && d.cleaner.id
                == st.tasks[k].cleaner_id && d.room.id == st.tasks[k].room_id && d.status
                == st.tasks[k].status && d.scheduled_date == st.tasks[k].scheduled_date
                && d.remarks == st.tasks[k].remarks && d.created_at == st.tasks[k].created_at
                && d.updated_at == st.tasks[k].updated_at && st.cleaners.contains(d.cleaner)
                && st.rooms.contains(d.room),
        has_task(st, id) ==> (st.get_task(id) == Err::<crate::models::CleaningTaskDetail, AppErrorView>(
            AppErrorView::InternalServerError,
        ) <==> !has_cleaner(st, st.task_at(id).unwrap().cleaner_id) || !has_room(
            st,
            st.task_at(id).unwrap().room_id,
        )),
        st.list_cleaners() == st.cleaners,
        st.list_rooms() == st.rooms,
{
    lemma_has(st, id, id, id);
    lemma_first_index(cleaner_ids(st.cleaners), id);
    lemma_first_index(room_ids(st.rooms), id);
    lemma_first_index(task_ids(st.tasks), id);
    if let Some(k) = st.index_of_cleaner(id) {
        assert forall|j: int| 0 <= j < k implies #[trigger] st.cleaners[j].id != id by {
            assert(cleaner_ids(st.cleaners)[j] != id);
        }
    }
    if let Some(k) = st.index_of_room(id) {
        assert forall|j: int| 0 <= j < k implies #[trigger] st.rooms[j].id != id by {
            assert(room_ids(st.rooms)[j] != id);
        }
    }
    if let Some(i) = st.index_of_task(id) {
        assert forall|j: int| 0 <= j < i implies #[trigger] st.tasks[j].id != id by {
            assert(task_ids(st.tasks)[j] != id);
        }
        let t = st.tasks[i];
        lemma_has(st, t.cleaner_id, t.room_id, id);
        lemma_first_index(cleaner_ids(st.cleaners), t.cleaner_id);
        lemma_first_index(room_ids(st.rooms), t.room_id);
        if let Some(ci) = st.index_of_cleaner(t.cleaner_id) {
            assert(st.cleaners[ci] == st.cleaners[ci]);
        }
        if let Some(ri) = st.index_of_room(t.room_id) {
            assert(st.rooms[ri] == st.rooms[ri]);
        }
    }
}

/// Adding a cleaner is refused, with the empty-name rule and no change,
/// exactly when the name is blank; otherwise the new cleaner, with the
/// request's name and phone, identifier `id` and creation time `now`, is
/// added after every cleaner already there and is the answer.
pub proof fn lemma_create_cleaner_effects(st: StoreView, p: CreateCleaner, id: u128, now: NaiveDateTime)
    ensures
        ({
            let (after, r) = st.create_cleaner(p, id, now);
            &&& r is Err <==> is_blank(p.name@)
            &&& r is Err ==> r == Err::<Cleaner, AppErrorView>(bad(Rejection::CleanerNameEmpty))
                && after == st
            &&& r matches Ok(c) ==> {
                &&& c.id == id
                &&& c.name == p.name
                &&& c.phone == p.phone
                &&& c.created_at == now
                &&& after.cleaners.len() == st.cleaners.len() + 1
                &&& after.cleaners.subrange(0, st.cleaners.len() as int) == st.cleaners
                &&& after.cleaners.last() == c
                &&& after.rooms == st.rooms
                &&& after.tasks == st.tasks
            }
        }),
{
    let (after, r) = st.create_cleaner(p, id, now);
    assert(after.cleaners.subrange(0, st.cleaners.len() as int) =~= st.cleaners);
}

/// Some room is numbered `n`.
pub open spec fn number_in_use(st: StoreView, n: Seq<char>) -> bool {
    exists|k: int| 0 <= k < st.rooms.len() && #[trigger] st.rooms[k].room_number@ == n
}

/// Adding a room is refused, with no change, exactly when its number is
/// blank (the empty-number rule) or already used by a room (the taken-number
/// rule); otherwise the new room, Available, with the request's number,
/// floor and type, identifier `id` and creation time `now`, is added after
/// every room already there and is the answer.
pub proof fn lemma_create_room_effects(st: StoreView, p: CreateRoom, id: u128, now: NaiveDateTime)
    ensures
        ({
            let (after, r) = st.create_room(p, id, now);
            &&& r is Err <==> is_blank(p.room_number@) || number_in_use(st, p.room_number@)
            &&& r is Err ==> after == st
            &&& is_blank(p.room_number@) ==> r == Err::<Room, AppErrorView>(
                bad(Rejection::RoomNumberEmpty),
            )
            &&& !is_blank(p.room_number@) && number_in_use(st, p.room_number@) ==> r == Err::<
                Room,
                AppErrorView,
            >(bad(Rejection::RoomNumberTaken))
            &&& r matches Ok(x) ==> {
                &&& x.id == id
                &&& x.room_number == p.room_number
                &&& x.floor == p.floor
                &&& x.room_type == p.room_type
                &&& x.status == RoomStatus::Available
                &&& x.created_at == now
                &&& after.rooms.len() == st.rooms.len() + 1
                &&& after.rooms.subrange(0, st.rooms.len() as int) == st.rooms
                &&& after.rooms.last() == x
                &&& after.cleaners == st.cleaners
                &&& after.tasks == st.tasks
            }
        }),
{
    let (after, r) = st.create_room(p, id, now);
    assert(after.rooms.subrange(0, st.rooms.len() as int) =~= st.rooms);
}

/// Some open task is for room `room` on `date`.
pub open spec fn slot_in_use(st: StoreView, room: u128, date: Seq<char>) -> bool {
    exists|k: int|
        0 <= k < st.tasks.len() && #[trigger] st.tasks[k].room_id == room
            && st.tasks[k].scheduled_date@ == date && is_open(st.tasks[k].status)
}

/// Scheduling a task is refused, with no change, exactly when its date is
/// blank, no cleaner or no room carries the requested identifier, or an
/// open task is already for that room on that date; each refusal names the
/// first of these rules that the request breaks.
pub proof fn lemma_create_task_refusals(
    st: StoreView,
    p: CreateCleaningTask,
    id: u128,
    now: NaiveDateTime,
)
    ensures
        ({
            let (after, r) = st.create_task(p, id, now);
            let e = |why: Rejection|
                Err::<crate::models::CleaningTaskDetail, AppErrorView>(bad(why));
            &&& r is Err <==> is_blank(p.scheduled_date@) || !has_cleaner(st, p.cleaner_id)
                || !has_room(st, p.room_id) || slot_in_use(st, p.room_id, p.scheduled_date@)
            &&& r is Err ==> after == st
            &&& is_blank(p.scheduled_date@) ==> r == e(Rejection::DateEmpty)
            &&& !is_blank(p.scheduled_date@) && !has_cleaner(st, p.cleaner_id) ==> r == e(
                Rejection::CleanerUnknown,
            )
            &&& !is_blank(p.scheduled_date@) && has_cleaner(st, p.cleaner_id) && !has_room(
                st,
                p.room_id,
            ) ==> r == e(Rejection::RoomUnknown)
            &&& !is_blank(p.scheduled_date@) && has_cleaner(st, p.cleaner_id) && has_room(
                st,
                p.room_id,
            ) && slot_in_use(st, p.room_id, p.scheduled_date@) ==> r == e(Rejection::SlotTaken)
        }),
{
    lemma_has(st, p.cleaner_id, p.room_id, id);
}

/// A change of cleaner `id` is answered NotFound when no cleaner carries
/// `id`, and is refused with the empty-name rule when it gives a blank name;
/// otherwise it goes through. A refusal changes nothing.
pub proof fn lemma_update_cleaner_refusals(st: StoreView, id: u128, p: UpdateCleaner)
    ensures
        ({
            let (after, r) = st.update_cleaner(id, p);
            &&& r is Err ==> after == st
            &&& !has_cleaner(st, id) ==> r == Err::<Cleaner, AppErrorView>(AppErrorView::NotFound)
            &&& has_cleaner(st, id) && (p.name matches Some(n) && is_blank(n@)) ==> r == Err::<
                Cleaner,
                AppErrorView,
            >(bad(Rejection::CleanerNameEmpty))
            &&& has_cleaner(st, id) && !(p.name matches Some(n) && is_blank(n@)) ==> r is Ok
        }),
{
    lemma_has(st, id, id, id);
}

/// A change of room `id` is answered NotFound when no room carries `id`;
/// a new number is refused when blank, or when a room with another
/// identifier already has it; otherwise the change goes through. A refusal
/// changes nothing.
pub proof fn lemma_update_room_refusals(st: StoreView, id: u128, p: UpdateRoom)
    ensures
        ({
            let (after, r) = st.update_room(id, p);
            let taken = |n: Seq<char>|
                exists|k: int|
                    0 <= k < st.rooms.len() && #[trigger] st.rooms[k].room_number@ == n
                        && st.rooms[k].id != id;
            &&& r is Err ==> after == st
            &&& !has_room(st, id) ==> r == Err::<Room, AppErrorView>(AppErrorView::NotFound)
            &&& has_room(st, id) && (p.room_number matches Some(n) && is_blank(n@)) ==> r == Err::<
                Room,
                AppErrorView,
            >(bad(Rejection::RoomNumberEmpty))
            &&& has_room(st, id) && (p.room_number matches Some(n) && !is_blank(n@) && taken(n@))
                ==> r == Err::<Room, AppErrorView>(bad(Rejection::RoomNumberTaken))
            &&& has_room(st, id) && (p.room_number matches Some(n) ==> !is_blank(n@) && !taken(n@))
                ==> r is Ok
        }),
{
    lemma_has(st, id, id, id);
}

/// No open task at a position other than `i` is for room `room`.
pub open spec fn no_open_task_besides(st: StoreView, room: u128, i: int) -> bool {
    forall|j: int|
        #![trigger st.tasks[j]]
        0 <= j < st.tasks.len() && j != i && st.tasks[j].room_id == room ==> !is_open(
            st.tasks[j].status,
        )
}

/// A change of task `id` that goes through sets each field that the request
/// gives and keeps each one it leaves absent (the remarks are replaced only
/// when the request gives some); the task keeps its identifier and creation
/// time and is updated at `now`. A completion frees the task's room and a
/// start marks it for cleaning; a cancellation that moves the task frees
/// the room it leaves when no open task at another position is for it, and
/// leaves it as it was otherwise; no other room changes. The answer shows
/// the task as it is afterwards.
pub proof fn lemma_update_task_effects(
    st: StoreView,
    id: u128,
    p: UpdateCleaningTask,
    now: NaiveDateTime,
)
    ensures
        ({
            let (after, r) = st.update_task(id, p, now);
            let i = st.index_of_task(id).unwrap();
            let old = st.tasks[i];
            let new_room = match p.room_id {
                Some(x) => x,
                None => old.room_id,
            };
            r is Ok ==> {
                &&& after.task_at(id) is Some
                &&& after.tasks.len() == st.tasks.len()
                &&& after.cleaners == st.cleaners
                &&& forall|j: int| 0 <= j < st.tasks.len() && j != i ==> #[trigger] after.tasks[j] == st.tasks[j]
                &&& after.tasks[i] == after.task_at(id).unwrap()
                &&& after.tasks[i].id == id
                &&& (p.cleaner_id matches Some(c) ==> after.tasks[i].cleaner_id == c)
                &&& (p.cleaner_id is None ==> after.tasks[i].cleaner_id == old.cleaner_id)
                &&& after.tasks[i].room_id == new_room
                &&& (p.status matches Some(x) ==> after.tasks[i].status == x)
                &&& (p.status is None ==> after.tasks[i].status == old.status)
                &&& (p.scheduled_date matches Some(d) ==> after.tasks[i].scheduled_date == d)
                &&& (p.scheduled_date is None ==> after.tasks[i].scheduled_date == old.scheduled_date)
                &&& (p.remarks is Some ==> after.tasks[i].remarks == p.remarks)
                &&& (p.remarks is None ==> after.tasks[i].remarks == old.remarks)
                &&& after.tasks[i].created_at == old.created_at
                &&& after.tasks[i].updated_at == now
                &&& p.status == Some(TaskStatus::Completed) ==> after.room_at(new_room) == in_status(
                    st.room_at(new_room),
                    RoomStatus::Available,
                )
                &&& p.status == Some(TaskStatus::InProgress) ==> after.room_at(new_room) == in_status(
                    st.room_at(new_room),
                    RoomStatus::Cleaning,
                )
                &&& (p.status is None || p.status == Some(TaskStatus::Pending)) ==> after.rooms
                    == st.rooms
                &&& p.status == Some(TaskStatus::Cancelled) && new_room != old.room_id ==> {
                    &&& no_open_task_besides(st, old.room_id, i) ==> after.room_at(old.room_id)
                        == in_status(st.room_at(old.room_id), RoomStatus::Available)
                    &&& !no_open_task_besides(st, old.room_id, i) ==> after.room_at(old.room_id)
                        == st.room_at(old.room_id)
                }
                &&& forall|y: u128|
                    y != new_room && y != old.room_id ==> #[trigger] after.room_at(y) == st.room_at(y)
                &&& r matches Ok(d) ==> {
                    &&& d.id == id
                    &&& d.status == after.tasks[i].status
                    &&& d.scheduled_date == after.tasks[i].scheduled_date
                    &&& d.remarks == after.tasks[i].remarks
                    &&& d.created_at == old.created_at
                    &&& d.updated_at == now
                    &&& st.cleaner_at(after.tasks[i].cleaner_id) is Some ==> Some(d.cleaner)
                        == st.cleaner_at(after.tasks[i].cleaner_id)
                    &&& after.room_at(new_room) is Some ==> Some(d.room) == after.room_at(new_room)
                }
            }
        }),
{
    lemma_first_index(task_ids(st.tasks), id);
    let (after, r) = st.update_task(id, p, now);
    if let Some(i) = st.index_of_task(id) {
        if st.task_update_refusal(i, p) is None {
            let cur = st.tasks[i];
            assert(cur.id == id);
            let room = or_keep_room(p.room_id, cur.room_id);
            let a = RoomStatus::Available;
            assert(st.room_busy_besides(cur.room_id, i) == !no_open_task_besides(st, cur.room_id, i));
            let first = if st.room_busy_except(room, cur.id) {
                st.rooms
            } else {
                set_room_status(st.rooms, room, a)
            };
            let mid = StoreView { rooms: first, ..st };
            assert(after.rooms == st.rooms_after_task_update(i, p));
            assert forall|y: u128| #[trigger] after.room_at(y) == (StoreView { rooms: after.rooms, ..st }).room_at(y) by {}
            lemma_room_after_set(st, room, a, room);
            lemma_room_after_set(st, room, RoomStatus::Cleaning, room);
            lemma_room_after_set(st, room, a, cur.room_id);
            lemma_room_after_set(mid, cur.room_id, a, cur.room_id);
            lemma_room_after_set(mid, cur.room_id, a, room);
            assert forall|y: u128| y != room && y != cur.room_id implies #[trigger] after.room_at(y) == st.room_at(y) by {
                lemma_room_after_set(st, room, a, y);
                lemma_room_after_set(st, room, RoomStatus::Cleaning, y);
                lemma_room_after_set(mid, cur.room_id, a, y);
            }
            assert(task_ids(after.tasks) =~= task_ids(st.tasks));
            lemma_first_index(task_ids(after.tasks), id);
        }
    }
}

/// A change of task `id` is answered NotFound when no task carries `id`;
/// it is refused when it names a cleaner or a room that no record carries,
/// gives a blank date, or would put the task on a room and date that an
/// open task with another identifier already holds; each refusal names the
/// first of these rules broken and changes nothing.
pub proof fn lemma_update_task_refusals(
    st: StoreView,
    id: u128,
    p: UpdateCleaningTask,
    now: NaiveDateTime,
)
    ensures
        ({
            let (after, r) = st.update_task(id, p, now);
            let old = st.task_at(id).unwrap();
            let new_room = match p.room_id {
                Some(x) => x,
                None => old.room_id,
            };
            let new_date = match p.scheduled_date {
                Some(d) => d@,
                None => old.scheduled_date@,
            };
            let e = |why: Rejection|
                Err::<crate::models::CleaningTaskDetail, AppErrorView>(bad(why));
            let bad_cleaner = p.cleaner_id matches Some(c) && !has_cleaner(st, c);
            let bad_room = p.room_id matches Some(x) && !has_room(st, x);
            let bad_date = p.scheduled_date matches Some(d) && is_blank(d@);
            let clash = exists|k: int|
                0 <= k < st.tasks.len() && #[trigger] st.tasks[k].room_id == new_room
                    && st.tasks[k].scheduled_date@ == new_date && is_open(st.tasks[k].status)
                    && st.tasks[k].id != id;
            &&& r is Err ==> after == st
            &&& !has_task(st, id) ==> r == e_not_found()
            &&& has_task(st, id) && bad_cleaner ==> r == e(Rejection::CleanerUnknown)
            &&& has_task(st, id) && !bad_cleaner && bad_room ==> r == e(Rejection::RoomUnknown)
            &&& has_task(st, id) && !bad_cleaner && !bad_room && bad_date ==> r == e(
                Rejection::DateEmpty,
            )
            &&& has_task(st, id) && !bad_cleaner && !bad_room && !bad_date && clash ==> r == e(
                Rejection::SlotTaken,
            )
            &&& has_task(st, id) && !bad_cleaner && !bad_room && !bad_date && !clash ==> r is Ok
        }),
{
    lemma_has(st, id, id, id);
    if let Some(c) = p.cleaner_id {
        lemma_has(st, c, id, id);
    }
    if let Some(x) = p.room_id {
        lemma_has(st, id, x, id);
    }
    lemma_first_index(task_ids(st.tasks), id);
}

/// NotFound, as an answer to a task request.
pub open spec fn e_not_found() -> Result<crate::models::CleaningTaskDetail, AppErrorView> {
    Err(AppErrorView::NotFound)
}

/// Removing task `id` is answered NotFound, with no change, exactly when no
/// task carries `id`; otherwise every task that carries `id` goes and every
/// other stays, and the task's room is freed when no open task with another
/// identifier is for it and left as it was when one is; no other room and
/// no cleaner changes.
pub proof fn lemma_delete_task_effects(st: StoreView, id: u128)
    ensures
        ({
            let (after, r) = st.delete_task(id);
            let room = st.task_at(id).unwrap().room_id;
            &&& r is Err <==> !has_task(st, id)
            &&& r is Err ==> r == Err::<(), AppErrorView>(AppErrorView::NotFound) && after == st
            &&& r is Ok ==> {
                &&& forall|t: CleaningTask| #[trigger] after.tasks.contains(t) <==> st.tasks.contains(t)
                    && t.id != id
                &&& !has_task(after, id)
                &&& after.cleaners == st.cleaners
                &&& no_other_open_task(st, room, id) ==> after.room_at(room) == in_status(
                    st.room_at(room),
                    RoomStatus::Available,
                )
                &&& !no_other_open_task(st, room, id) ==> after.room_at(room) == st.room_at(room)
                &&& forall|y: u128| y != room ==> #[trigger] after.room_at(y) == st.room_at(y)
            }
        }),
{
    lemma_has(st, id, id, id);
    lemma_first_index(task_ids(st.tasks), id);
    let (after, r) = st.delete_task(id);
    if let Some(i) = st.index_of_task(id) {
        let room = st.tasks[i].room_id;
        let pred = crate::state::task_other_than(id);
        assert(st.room_busy_except(room, id) == !no_other_open_task(st, room, id));
        assert forall|t: CleaningTask| #[trigger] after.tasks.contains(t) <==> st.tasks.contains(t)
            && t.id != id by {
            if after.tasks.contains(t) {
                st.tasks.lemma_filter_contains_rev(pred, t);
                let k = choose|k: int| 0 <= k < after.tasks.len() && after.tasks[k] == t;
                st.tasks.lemma_filter_pred(pred, k);
            }
            if st.tasks.contains(t) && t.id != id {
                let k = choose|k: int| 0 <= k < st.tasks.len() && st.tasks[k] == t;
                st.tasks.lemma_filter_contains(pred, k);
            }
        }
        assert forall|k: int| 0 <= k < after.tasks.len() implies #[trigger] after.tasks[k].id != id by {
            st.tasks.lemma_filter_pred(pred, k);
        }
        lemma_room_after_set(st, room, RoomStatus::Available, room);
        assert forall|y: u128| y != room implies #[trigger] after.room_at(y) == st.room_at(y) by {
            lemma_room_after_set(st, room, RoomStatus::Available, y);
            assert((StoreView { rooms: after.rooms, ..st }).room_at(y) == after.room_at(y));
        }
        assert((StoreView { rooms: after.rooms, ..st }).room_at(room) == after.room_at(room));
    }
}

/// Removing cleaner `id` is refused, with no change, when a task is
/// assigned to it, and answered NotFound, with no change, when no task is
/// and no cleaner carries `id`; otherwise every cleaner that carries `id`
/// goes, every other stays, and rooms and tasks are untouched.
pub proof fn lemma_delete_cleaner_effects(st: StoreView, id: u128)
    ensures
        ({
            let (after, r) = st.delete_cleaner(id);
            let assigned = exists|k: int|
                0 <= k < st.tasks.len() && #[trigger] st.tasks[k].cleaner_id == id;
            &&& assigned ==> r == Err::<(), AppErrorView>(bad(Rejection::CleanerHasTasks))
            &&& !assigned && !has_cleaner(st, id) ==> r == Err::<(), AppErrorView>(
                AppErrorView::NotFound,
            )
            &&& r is Err ==> after == st
            &&& !assigned && has_cleaner(st, id) ==> r is Ok
            &&& r is Ok ==> {
                &&& forall|c: Cleaner| #[trigger] after.cleaners.contains(c) <==> st.cleaners.contains(c)
                    && c.id != id
                &&& after.rooms == st.rooms
                &&& after.tasks == st.tasks
            }
        }),
{
    lemma_has(st, id, id, id);
    let (after, r) = st.delete_cleaner(id);
    if r is Ok {
        let pred = crate::state::cleaner_other_than(id);
        assert forall|c: Cleaner| #[trigger] after.cleaners.contains(c) <==> st.cleaners.contains(c)
            && c.id != id by {
            if after.cleaners.contains(c) {
                st.cleaners.lemma_filter_contains_rev(pred, c);
                let k = choose|k: int| 0 <= k < after.cleaners.len() && after.cleaners[k] == c;
                st.cleaners.lemma_filter_pred(pred, k);
            }
            if st.cleaners.contains(c) && c.id != id {
                let k = choose|k: int| 0 <= k < st.cleaners.len() && st.cleaners[k] == c;
                st.cleaners.lemma_filter_contains(pred, k);
            }
        }
    }
}

/// Removing room `id` is refused, with no change, when a task is for it,
/// and answered NotFound, with no change, when no task is and no room
/// carries `id`; otherwise every room that carries `id` goes, every other
/// stays, and cleaners and tasks are untouched.
pub proof fn lemma_delete_room_effects(st: StoreView, id: u128)
    ensures
        ({
            let (after, r) = st.delete_room(id);
            let used = exists|k: int| 0 <= k < st.tasks.len() && #[trigger] st.tasks[k].room_id == id;
            &&& used ==> r == Err::<(), AppErrorView>(bad(Rejection::RoomHasTasks))
            &&& !used && !has_room(st, id) ==> r == Err::<(), AppErrorView>(AppErrorView::NotFound)
            &&& r is Err ==> after == st
            &&& !used && has_room(st, id) ==> r is Ok
            &&& r is Ok ==> {
                &&& forall|x: Room| #[trigger] after.rooms.contains(x) <==> st.rooms.contains(x)
                    && x.id != id
                &&& after.cleaners == st.cleaners
                &&& after.tasks == st.tasks
            }
        }),
{
    lemma_has(st, id, id, id);
    let (after, r) = st.delete_room(id);
    if r is Ok {
        let pred = crate::state::room_other_than(id);
        assert forall|x: Room| #[trigger] after.rooms.contains(x) <==> st.rooms.contains(x)
            && x.id != id by {
            if after.rooms.contains(x) {
                st.rooms.lemma_filter_contains_rev(pred, x);
                let k = choose|k: int| 0 <= k < after.rooms.len() && after.rooms[k] == x;
                st.rooms.lemma_filter_pred(pred, k);
            }
            if st.rooms.contains(x) && x.id != id {
                let k = choose|k: int| 0 <= k < st.rooms.len() && st.rooms[k] == x;
                st.rooms.lemma_filter_contains(pred, k);
            }
        }
    }
}

} // verus!
