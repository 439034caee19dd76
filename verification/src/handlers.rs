//! The requests of the service, one function each, working on the store.
//! A function whose name ends in `_with` takes the new identifier and the
//! time as arguments; the function of the plain name draws them and calls it.

use crate::error::{AppError, Rejection, bad_request, outcome};
use crate::lookup::{
    cleaner_has_tasks, number_taken, room_busy, room_has_tasks, set_room_status_in, slot_taken,
};
use crate::model::progress_refusal;
use crate::models::{
    Cleaner, CleaningTask, CleaningTaskDetail, CreateCleaner, CreateCleaningTask, CreateRoom, Room,
    RoomStatus, TaskStatus, UpdateCleaner, UpdateCleaningTask, UpdateProgress, UpdateRoom, make_detail,
};
use crate::outside::{current_time, is_uuid_v4, new_id};
use crate::state::{
    AppStateInner, lemma_set_room_status_ids, position_of_cleaner,
    position_of_room, position_of_task, room_ids, tasks_without, cleaners_without,
    rooms_without,
};
use crate::text::blank;
use chrono::NaiveDateTime;
use vstd::prelude::*;

verus! {

/// A value of a version-4 UUID, to stand for the identifier of a refused
/// creation.
proof fn lemma_v4_example()
    ensures
        is_uuid_v4(0x4000_8000_0000_0000_0000u128),
{
    assert((0x4000_8000_0000_0000_0000u128 >> 76u128) & 0xfu128 == 4u128
        && (0x4000_8000_0000_0000_0000u128 >> 62u128) & 0x3u128 == 2u128) by (bit_vector);
}

/// Every cleaner, in order.
pub fn list_cleaners(state: &AppStateInner) -> (r: Vec<Cleaner>)
    ensures
        r@ == state@.list_cleaners(),
{
    let mut out: Vec<Cleaner> = Vec::new();
    let mut i: usize = 0;
    while i < state.cleaners.len()
        invariant
            i <= state.cleaners.len(),
            out@ == state@.cleaners.take(i as int),
        decreases state.cleaners.len() - i,
    {
        out.push(state.cleaners[i].clone());
        proof {
            assert(out@ =~= state@.cleaners.take(i + 1));
        }
        i = i + 1;
    }
    assert(state@.cleaners.take(state.cleaners.len() as int) =~= state@.cleaners);
    out
}

/// Cleaner `id`.
pub fn get_cleaner(state: &AppStateInner, id: u128) -> (r: Result<Cleaner, AppError>)
    ensures
        outcome(r) == state@.get_cleaner(id),
{
    match position_of_cleaner(&state.cleaners, id) {
        Some(i) => Ok(state.cleaners[i].clone()),
        None => Err(AppError::NotFound),
    }
}

/// Adds the cleaner that `payload` describes under identifier `id`, at time
/// `now`.
pub fn create_cleaner_with(
    state: &mut AppStateInner,
    payload: CreateCleaner,
    id: u128,
    now: NaiveDateTime,
) -> (r: Result<Cleaner, AppError>)
    ensures
        r is Err ==> final(state)@ == old(state)@,
        (final(state)@, outcome(r)) == old(state)@.create_cleaner(payload, id, now),
{
    if blank(payload.name.as_str()) {
        return Err(bad_request(Rejection::CleanerNameEmpty));
    }
    let cleaner = Cleaner { id, name: payload.name, phone: payload.phone, created_at: now };
    state.cleaners.push(cleaner.clone());
    Ok(cleaner)
}

/// Adds the cleaner that `payload` describes under a fresh identifier, at
/// the current time.
pub fn create_cleaner(state: &mut AppStateInner, payload: CreateCleaner) -> (r: Result<
    Cleaner,
    AppError,
>)
    ensures
        r is Err ==> final(state)@ == old(state)@,
        exists|id: u128, now: NaiveDateTime|
            is_uuid_v4(id) && (final(state)@, outcome(r)) == #[trigger] old(state)@.create_cleaner(
                payload,
                id,
                now,
            ),
        r matches Ok(c) ==> is_uuid_v4(c.id),
{
    if blank(payload.name.as_str()) {
        let r = Err(bad_request(Rejection::CleanerNameEmpty));
        proof {
            lemma_v4_example();
            assert(old(state)@.create_cleaner(payload, 0x4000_8000_0000_0000_0000u128, arbitrary()) == (state@, outcome(r)));
        }
        return r;
    }
    let id = new_id();
    let now = current_time();
    create_cleaner_with(state, payload, id, now)
}

/// Changes cleaner `id` as `payload` says.
pub fn update_cleaner(state: &mut AppStateInner, id: u128, payload: UpdateCleaner) -> (r: Result<
    Cleaner,
    AppError,
>)
    ensures
        r is Err ==> final(state)@ == old(state)@,
        (final(state)@, outcome(r)) == old(state)@.update_cleaner(id, payload),
{
    let i = match position_of_cleaner(&state.cleaners, id) {
        Some(i) => i,
        None => return Err(AppError::NotFound),
    };
    let mut cleaner = state.cleaners[i].clone();
    if let Some(name) = payload.name {
        if blank(name.as_str()) {
            return Err(bad_request(Rejection::CleanerNameEmpty));
        }
        cleaner.name = name;
    }
    if let Some(phone) = payload.phone {
        cleaner.phone = phone;
    }
    state.cleaners[i] = cleaner.clone();
    Ok(cleaner)
}

/// Removes cleaner `id`, unless a task is assigned to it.
pub fn delete_cleaner(state: &mut AppStateInner, id: u128) -> (r: Result<(), AppError>)
    ensures
        r is Err ==> final(state)@ == old(state)@,
        (final(state)@, outcome(r)) == old(state)@.delete_cleaner(id),
{
    if cleaner_has_tasks(state, id) {
        return Err(bad_request(Rejection::CleanerHasTasks));
    }
    if position_of_cleaner(&state.cleaners, id).is_none() {
        return Err(AppError::NotFound);
    }
    state.cleaners = cleaners_without(&state.cleaners, id);
    Ok(())
}

/// Every room, in order.
pub fn list_rooms(state: &AppStateInner) -> (r: Vec<Room>)
    ensures
        r@ == state@.list_rooms(),
{
    let mut out: Vec<Room> = Vec::new();
    let mut i: usize = 0;
    while i < state.rooms.len()
        invariant
            i <= state.rooms.len(),
            out@ == state@.rooms.take(i as int),
        decreases state.rooms.len() - i,
    {
        out.push(state.rooms[i].clone());
        proof {
            assert(out@ =~= state@.rooms.take(i + 1));
        }
        i = i + 1;
    }
    assert(state@.rooms.take(state.rooms.len() as int) =~= state@.rooms);
    out
}

/// Room `id`.
pub fn get_room(state: &AppStateInner, id: u128) -> (r: Result<Room, AppError>)
    ensures
        outcome(r) == state@.get_room(id),
{
    match position_of_room(&state.rooms, id) {
        Some(i) => Ok(state.rooms[i].clone()),
        None => Err(AppError::NotFound),
    }
}

/// Which rule a new room `payload` breaks, if any.
fn room_creation_check(state: &AppStateInner, payload: &CreateRoom) -> (r: Option<Rejection>)
    ensures
        r == state@.room_creation_refusal(*payload),
{
    if blank(payload.room_number.as_str()) {
        Some(Rejection::RoomNumberEmpty)
    } else if number_taken(state, &payload.room_number, None) {
        Some(Rejection::RoomNumberTaken)
    } else {
        None
    }
}

/// Adds the room that `payload` describes under identifier `id`, at time
/// `now`; a new room is available.
pub fn create_room_with(
    state: &mut AppStateInner,
    payload: CreateRoom,
    id: u128,
    now: NaiveDateTime,
) -> (r: Result<Room, AppError>)
    ensures
        r is Err ==> final(state)@ == old(state)@,
        (final(state)@, outcome(r)) == old(state)@.create_room(payload, id, now),
{
    if let Some(why) = room_creation_check(state, &payload) {
        return Err(bad_request(why));
    }
    let room = Room {
        id,
        room_number: payload.room_number,
        floor: payload.floor,
        room_type: payload.room_type,
        status: RoomStatus::Available,
        created_at: now,
    };
    state.rooms.push(room.clone());
    Ok(room)
}

/// Adds the room that `payload` describes under a fresh identifier, at the
/// current time.
pub fn create_room(state: &mut AppStateInner, payload: CreateRoom) -> (r: Result<Room, AppError>)
    ensures
        r is Err ==> final(state)@ == old(state)@,
        exists|id: u128, now: NaiveDateTime|
            is_uuid_v4(id) && (final(state)@, outcome(r)) == #[trigger] old(state)@.create_room(
                payload,
                id,
                now,
            ),
        r matches Ok(x) ==> is_uuid_v4(x.id),
{
    if let Some(why) = room_creation_check(state, &payload) {
        let r = Err(bad_request(why));
        proof {
            lemma_v4_example();
            assert(old(state)@.create_room(payload, 0x4000_8000_0000_0000_0000u128, arbitrary()) == (state@, outcome(r)));
        }
        return r;
    }
    let id = new_id();
    let now = current_time();
    create_room_with(state, payload, id, now)
}

/// Changes room `id` as `payload` says.
pub fn update_room(state: &mut AppStateInner, id: u128, payload: UpdateRoom) -> (r: Result<
    Room,
    AppError,
>)
    ensures
        r is Err ==> final(state)@ == old(state)@,
        (final(state)@, outcome(r)) == old(state)@.update_room(id, payload),
{
    let i = match position_of_room(&state.rooms, id) {
        Some(i) => i,
        None => return Err(AppError::NotFound),
    };
    if let Some(n) = &payload.room_number {
        if blank(n.as_str()) {
            return Err(bad_request(Rejection::RoomNumberEmpty));
        }
        if number_taken(state, n, Some(id)) {
            return Err(bad_request(Rejection::RoomNumberTaken));
        }
    }
    let mut room = state.rooms[i].clone();
    if let Some(n) = payload.room_number {
        room.room_number = n;
    }
    if let Some(f) = payload.floor {
        room.floor = f;
    }
    if let Some(t) = payload.room_type {
        room.room_type = t;
    }
    if let Some(s) = payload.status {
        room.status = s;
    }
    state.rooms[i] = room.clone();
    Ok(room)
}

/// Removes room `id`, unless a task is for it.
pub fn delete_room(state: &mut AppStateInner, id: u128) -> (r: Result<(), AppError>)
    ensures
        r is Err ==> final(state)@ == old(state)@,
        (final(state)@, outcome(r)) == old(state)@.delete_room(id),
{
    if room_has_tasks(state, id) {
        return Err(bad_request(Rejection::RoomHasTasks));
    }
    if position_of_room(&state.rooms, id).is_none() {
        return Err(AppError::NotFound);
    }
    state.rooms = rooms_without(&state.rooms, id);
    Ok(())
}

/// Task `t` with its cleaner and its room, when both are there.
fn resolve_task(state: &AppStateInner, t: &CleaningTask) -> (d: Option<CleaningTaskDetail>)
    ensures
        d == state@.resolve(*t),
{
    match position_of_cleaner(&state.cleaners, t.cleaner_id) {
        Some(ci) => match position_of_room(&state.rooms, t.room_id) {
            Some(ri) => Some(make_detail(t, state.cleaners[ci].clone(), state.rooms[ri].clone())),
            None => None,
        },
        None => None,
    }
}

/// Every task whose cleaner and room are both there, with them, in order.
pub fn list_tasks(state: &AppStateInner) -> (r: Vec<CleaningTaskDetail>)
    ensures
        r@ == state@.list_tasks(),
{
    let mut out: Vec<CleaningTaskDetail> = Vec::new();
    let mut i: usize = 0;
    while i < state.tasks.len()
        invariant
            i <= state.tasks.len(),
            out@ == state@.tasks.take(i as int).filter_map(state@.resolver()),
        decreases state.tasks.len() - i,
    {
        proof {
            assert(state@.tasks.take(i + 1).drop_last() =~= state@.tasks.take(i as int));
        }
        match resolve_task(state, &state.tasks[i]) {
            Some(d) => {
                out.push(d);
            },
            None => {},
        }
        proof {
            assert(out@ =~= state@.tasks.take(i + 1).filter_map(state@.resolver()));
        }
        i = i + 1;
    }
    assert(state@.tasks.take(state.tasks.len() as int) =~= state@.tasks);
    out
}

/// Task `id` with its cleaner and its room.
pub fn get_task(state: &AppStateInner, id: u128) -> (r: Result<CleaningTaskDetail, AppError>)
    ensures
        outcome(r) == state@.get_task(id),
{
    let i = match position_of_task(&state.tasks, id) {
        Some(i) => i,
        None => return Err(AppError::NotFound),
    };
    let t = &state.tasks[i];
    let cleaner = match position_of_cleaner(&state.cleaners, t.cleaner_id) {
        Some(ci) => state.cleaners[ci].clone(),
        None => return Err(AppError::InternalServerError),
    };
    let room = match position_of_room(&state.rooms, t.room_id) {
        Some(ri) => state.rooms[ri].clone(),
        None => return Err(AppError::InternalServerError),
    };
    Ok(make_detail(t, cleaner, room))
}

/// Which rule a new task `payload` breaks, if any.
fn task_creation_check(state: &AppStateInner, payload: &CreateCleaningTask) -> (r: Option<Rejection>)
    ensures
        r == state@.task_creation_refusal(*payload),
{
    if blank(payload.scheduled_date.as_str()) {
        Some(Rejection::DateEmpty)
    } else if position_of_cleaner(&state.cleaners, payload.cleaner_id).is_none() {
        Some(Rejection::CleanerUnknown)
    } else if position_of_room(&state.rooms, payload.room_id).is_none() {
        Some(Rejection::RoomUnknown)
    } else if slot_taken(state, payload.room_id, &payload.scheduled_date, None) {
        Some(Rejection::SlotTaken)
    } else {
        None
    }
}

/// Schedules the task that `payload` describes under identifier `id`, at
/// time `now`; its room goes into cleaning.
pub fn create_task_with(
    state: &mut AppStateInner,
    payload: CreateCleaningTask,
    id: u128,
    now: NaiveDateTime,
) -> (r: Result<CleaningTaskDetail, AppError>)
    ensures
        r is Err ==> final(state)@ == old(state)@,
        (final(state)@, outcome(r)) == old(state)@.create_task(payload, id, now),
{
    let ghost st = state@;
    if let Some(why) = task_creation_check(state, &payload) {
        return Err(bad_request(why));
    }
    let task = CleaningTask {
        id,
        cleaner_id: payload.cleaner_id,
        room_id: payload.room_id,
        status: TaskStatus::Pending,
        scheduled_date: payload.scheduled_date,
        remarks: payload.remarks,
        created_at: now,
        updated_at: now,
    };
    state.tasks.push(task.clone());
    set_room_status_in(&mut state.rooms, task.room_id, RoomStatus::Cleaning);
    proof {
        lemma_set_room_status_ids(st.rooms, task.room_id, RoomStatus::Cleaning);
        assert(room_ids(state.rooms@) =~= room_ids(st.rooms));
    }
    let ci = position_of_cleaner(&state.cleaners, task.cleaner_id).unwrap();
    let ri = position_of_room(&state.rooms, task.room_id).unwrap();
    let detail = make_detail(&task, state.cleaners[ci].clone(), state.rooms[ri].clone());
    Ok(detail)
}

/// Schedules the task that `payload` describes under a fresh identifier, at
/// the current time.
pub fn create_task(state: &mut AppStateInner, payload: CreateCleaningTask) -> (r: Result<
    CleaningTaskDetail,
    AppError,
>)
    ensures
        r is Err ==> final(state)@ == old(state)@,
        exists|id: u128, now: NaiveDateTime|
            is_uuid_v4(id) && (final(state)@, outcome(r)) == #[trigger] old(state)@.create_task(
                payload,
                id,
                now,
            ),
        r matches Ok(d) ==> is_uuid_v4(d.id),
{
    if let Some(why) = task_creation_check(state, &payload) {
        let r = Err(bad_request(why));
        proof {
            lemma_v4_example();
            assert(old(state)@.create_task(payload, 0x4000_8000_0000_0000_0000u128, arbitrary()) == (state@, outcome(r)));
        }
        return r;
    }
    let id = new_id();
    let now = current_time();
    create_task_with(state, payload, id, now)
}

/// Which rule the change `payload` of the task at position `i` breaks, if
/// any.
fn task_update_check(state: &AppStateInner, i: usize, payload: &UpdateCleaningTask) -> (r: Option<
    Rejection,
>)
    requires
        i < state@.tasks.len(),
    ensures
        r == state@.task_update_refusal(i as int, *payload),
{
    if let Some(c) = payload.cleaner_id {
        if position_of_cleaner(&state.cleaners, c).is_none() {
            return Some(Rejection::CleanerUnknown);
        }
    }
    if let Some(rm) = payload.room_id {
        if position_of_room(&state.rooms, rm).is_none() {
            return Some(Rejection::RoomUnknown);
        }
    }
    if let Some(d) = &payload.scheduled_date {
        if blank(d.as_str()) {
            return Some(Rejection::DateEmpty);
        }
    }
    let cur = &state.tasks[i];
    let new_room = match payload.room_id {
        Some(rm) => rm,
        None => cur.room_id,
    };
    let taken = match &payload.scheduled_date {
        Some(d) => slot_taken(state, new_room, d, Some(cur.id)),
        None => slot_taken(state, new_room, &cur.scheduled_date, Some(cur.id)),
    };
    if taken {
        Some(Rejection::SlotTaken)
    } else {
        None
    }
}

/// Whether a change `payload` of task `id` that passes every check leaves
/// the task with a cleaner and a room to show; `update_task` asks this of
/// its caller.
pub fn task_update_resolves(state: &AppStateInner, id: u128, payload: &UpdateCleaningTask) -> (r:
    bool)
    ensures
        r == state@.task_update_resolvable(id, *payload),
{
    let i = match position_of_task(&state.tasks, id) {
        Some(i) => i,
        None => return true,
    };
    if task_update_check(state, i, payload).is_some() {
        return true;
    }
    let cur = &state.tasks[i];
    let cleaner_ok = payload.cleaner_id.is_some() || position_of_cleaner(
        &state.cleaners,
        cur.cleaner_id,
    ).is_some();
    let room_ok = payload.room_id.is_some() || position_of_room(&state.rooms, cur.room_id).is_some();
    cleaner_ok && room_ok
}

/// Changes task `id` as `payload` says, at time `now`.
pub fn update_task_with(
    state: &mut AppStateInner,
    id: u128,
    payload: UpdateCleaningTask,
    now: NaiveDateTime,
) -> (r: Result<CleaningTaskDetail, AppError>)
    requires
        old(state)@.task_update_resolvable(id, payload),
    ensures
        r is Err ==> final(state)@ == old(state)@,
        (final(state)@, outcome(r)) == old(state)@.update_task(id, payload, now),
{
    let ghost st = state@;
    let i = match position_of_task(&state.tasks, id) {
        Some(i) => i,
        None => return Err(AppError::NotFound),
    };
    if let Some(why) = task_update_check(state, i, &payload) {
        return Err(bad_request(why));
    }
    let cur_room = state.tasks[i].room_id;
    let new_room = match payload.room_id {
        Some(rm) => rm,
        None => cur_room,
    };
    match payload.status {
        Some(TaskStatus::Completed) => {
            set_room_status_in(&mut state.rooms, new_room, RoomStatus::Available);
        },
        Some(TaskStatus::InProgress) => {
            set_room_status_in(&mut state.rooms, new_room, RoomStatus::Cleaning);
        },
        Some(TaskStatus::Cancelled) => {
            let busy = room_busy(state, new_room, id, None);
            let old_busy = room_busy(state, cur_room, id, Some(i));
            if !busy {
                set_room_status_in(&mut state.rooms, new_room, RoomStatus::Available);
            }
            if cur_room != new_room && !old_busy {
                set_room_status_in(&mut state.rooms, cur_room, RoomStatus::Available);
            }
        },
        _ => {},
    }
    assert(state.rooms@ == st.rooms_after_task_update(i as int, payload));
    let mut t = state.tasks[i].clone();
    if let Some(c) = payload.cleaner_id {
        t.cleaner_id = c;
    }
    t.room_id = new_room;
    if let Some(s) = payload.status {
        t.status = s;
    }
    if let Some(d) = payload.scheduled_date {
        t.scheduled_date = d;
    }
    if payload.remarks.is_some() {
        t.remarks = payload.remarks;
    }
    t.updated_at = now;
    state.tasks[i] = t.clone();
    proof {
        lemma_set_room_status_ids(st.rooms, new_room, RoomStatus::Available);
        assert(room_ids(state.rooms@) =~= room_ids(st.rooms));
    }
    let ci = position_of_cleaner(&state.cleaners, t.cleaner_id).unwrap();
    let ri = position_of_room(&state.rooms, t.room_id).unwrap();
    let detail = make_detail(&t, state.cleaners[ci].clone(), state.rooms[ri].clone());
    Ok(detail)
}

/// Changes task `id` as `payload` says, at the current time.
pub fn update_task(state: &mut AppStateInner, id: u128, payload: UpdateCleaningTask) -> (r: Result<
    CleaningTaskDetail,
    AppError,
>)
    requires
        old(state)@.task_update_resolvable(id, payload),
    ensures
        r is Err ==> final(state)@ == old(state)@,
        exists|now: NaiveDateTime|
            (final(state)@, outcome(r)) == #[trigger] old(state)@.update_task(id, payload, now),
{
    let refused = match position_of_task(&state.tasks, id) {
        None => Some(AppError::NotFound),
        Some(i) => match task_update_check(state, i, &payload) {
            Some(why) => Some(bad_request(why)),
            None => None,
        },
    };
    if let Some(e) = refused {
        let r = Err(e);
        proof {
            assert(old(state)@.update_task(id, payload, arbitrary()) == (state@, outcome(r)));
        }
        return r;
    }
    let now = current_time();
    update_task_with(state, id, payload, now)
}

/// Removes task `id`; its room becomes available when no other open task is
/// left for it.
pub fn delete_task(state: &mut AppStateInner, id: u128) -> (r: Result<(), AppError>)
    ensures
        r is Err ==> final(state)@ == old(state)@,
        (final(state)@, outcome(r)) == old(state)@.delete_task(id),
{
    let i = match position_of_task(&state.tasks, id) {
        Some(i) => i,
        None => return Err(AppError::NotFound),
    };
    let room_id = state.tasks[i].room_id;
    let busy = room_busy(state, room_id, id, None);
    state.tasks = tasks_without(&state.tasks, id);
    if !busy {
        set_room_status_in(&mut state.rooms, room_id, RoomStatus::Available);
    }
    Ok(())
}

/// Which rule a progress step from `from` to `to` breaks, if any.
fn progress_check(from: TaskStatus, to: TaskStatus) -> (r: Option<Rejection>)
    ensures
        r == progress_refusal(from, to),
{
    match to {
        TaskStatus::InProgress => if from != TaskStatus::Pending {
            Some(Rejection::StartNeedsPending)
        } else {
            None
        },
        TaskStatus::Completed => if from != TaskStatus::InProgress {
            Some(Rejection::CompleteNeedsInProgress)
        } else {
            None
        },
        TaskStatus::Cancelled => if from == TaskStatus::Completed || from == TaskStatus::Cancelled {
            Some(Rejection::CancelNeedsOpen)
        } else {
            None
        },
        TaskStatus::Pending => Some(Rejection::NoReturnToPending),
    }
}

/// Whether a progress step of task `id` that passes the checks leaves the
/// task with a cleaner and a room to show; `update_task_progress` asks this
/// of its caller.
pub fn progress_resolves(state: &AppStateInner, id: u128, payload: &UpdateProgress) -> (r: bool)
    ensures
        r == state@.progress_resolvable(id, *payload),
{
    let i = match position_of_task(&state.tasks, id) {
        Some(i) => i,
        None => return true,
    };
    let cur = &state.tasks[i];
    if progress_check(cur.status, payload.status).is_some() {
        return true;
    }
    position_of_cleaner(&state.cleaners, cur.cleaner_id).is_some() && position_of_room(
        &state.rooms,
        cur.room_id,
    ).is_some()
}

/// Moves task `id` on to the status that `payload` names, at time `now`.
pub fn update_task_progress_with(
    state: &mut AppStateInner,
    id: u128,
    payload: UpdateProgress,
    now: NaiveDateTime,
) -> (r: Result<CleaningTaskDetail, AppError>)
    requires
        old(state)@.progress_resolvable(id, payload),
    ensures
        r is Err ==> final(state)@ == old(state)@,
        (final(state)@, outcome(r)) == old(state)@.update_task_progress(id, payload, now),
{
    let ghost st = state@;
    let i = match position_of_task(&state.tasks, id) {
        Some(i) => i,
        None => return Err(AppError::NotFound),
    };
    let current = state.tasks[i].status;
    let room_id = state.tasks[i].room_id;
    if let Some(why) = progress_check(current, payload.status) {
        return Err(bad_request(why));
    }
    match payload.status {
        TaskStatus::InProgress => {
            set_room_status_in(&mut state.rooms, room_id, RoomStatus::Cleaning);
        },
        TaskStatus::Completed => {
            set_room_status_in(&mut state.rooms, room_id, RoomStatus::Available);
        },
        TaskStatus::Cancelled => {
            if !room_busy(state, room_id, id, None) {
                set_room_status_in(&mut state.rooms, room_id, RoomStatus::Available);
            }
        },
        TaskStatus::Pending => {},
    }
    let mut t = state.tasks[i].clone();
    t.status = payload.status;
    t.updated_at = now;
    state.tasks[i] = t.clone();
    proof {
        lemma_set_room_status_ids(st.rooms, room_id, RoomStatus::Available);
        assert(room_ids(state.rooms@) =~= room_ids(st.rooms));
    }
    let ci = position_of_cleaner(&state.cleaners, t.cleaner_id).unwrap();
    let ri = position_of_room(&state.rooms, t.room_id).unwrap();
    let detail = make_detail(&t, state.cleaners[ci].clone(), state.rooms[ri].clone());
    Ok(detail)
}

/// Moves task `id` on to the status that `payload` names, at the current
/// time.
pub fn update_task_progress(state: &mut AppStateInner, id: u128, payload: UpdateProgress) -> (r:
    Result<CleaningTaskDetail, AppError>)
    requires
        old(state)@.progress_resolvable(id, payload),
    ensures
        r is Err ==> final(state)@ == old(state)@,
        exists|now: NaiveDateTime|
            (final(state)@, outcome(r)) == #[trigger] old(state)@.update_task_progress(
                id,
                payload,
                now,
            ),
{
    let refused = match position_of_task(&state.tasks, id) {
        None => Some(AppError::NotFound),
        Some(i) => match progress_check(state.tasks[i].status, payload.status) {
            Some(why) => Some(bad_request(why)),
            None => None,
        },
    };
    if let Some(e) = refused {
        let r = Err(e);
        proof {
            assert(old(state)@.update_task_progress(id, payload, arbitrary()) == (state@, outcome(r)));
        }
        return r;
    }
    let now = current_time();
    update_task_progress_with(state, id, payload, now)
}

} // verus!
