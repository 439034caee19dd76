//! Searches over the store that the request handlers decide with.

use crate::models::{Room, RoomStatus, is_open, task_is_open};
use crate::state::{AppStateInner, position_of_room, set_room_status};
use vstd::prelude::*;

verus! {

/// Puts the first room that carries `id` into status `s`.
pub fn set_room_status_in(rooms: &mut Vec<Room>, id: u128, s: RoomStatus)
    ensures
        final(rooms)@ == set_room_status(old(rooms)@, id, s),
{
    match position_of_room(rooms, id) {
        Some(i) => {
            let mut r = rooms[i].clone();
            r.status = s;
            rooms[i] = r;
        },
        None => {},
    }
}

/// Whether some task is assigned to cleaner `id`.
pub fn cleaner_has_tasks(state: &AppStateInner, id: u128) -> (r: bool)
    ensures
        r == state@.cleaner_has_tasks(id),
{
    let mut i: usize = 0;
    while i < state.tasks.len()
        invariant
            i <= state.tasks.len(),
            forall|j: int| 0 <= j < i ==> state.tasks@[j].cleaner_id != id,
        decreases state.tasks.len() - i,
    {
        if state.tasks[i].cleaner_id == id {
            return true;
        }
        i = i + 1;
    }
    false
}

/// Whether some task is for room `id`.
pub fn room_has_tasks(state: &AppStateInner, id: u128) -> (r: bool)
    ensures
        r == state@.room_has_tasks(id),
{
    let mut i: usize = 0;
    while i < state.tasks.len()
        invariant
            i <= state.tasks.len(),
            forall|j: int| 0 <= j < i ==> state.tasks@[j].room_id != id,
        decreases state.tasks.len() - i,
    {
        if state.tasks[i].room_id == id {
            return true;
        }
        i = i + 1;
    }
    false
}

/// Whether some room other than those that carry `except` (when given) is
/// numbered `n`.
pub fn number_taken(state: &AppStateInner, n: &String, except: Option<u128>) -> (r: bool)
    ensures
        except is None ==> r == state@.number_taken(n@),
        except matches Some(id) ==> r == state@.number_taken_by_other(n@, id),
{
    let mut i: usize = 0;
    while i < state.rooms.len()
        invariant
            i <= state.rooms.len(),
            forall|j: int|
                0 <= j < i ==> !(#[trigger] state.rooms@[j].room_number@ == n@ && match except {
                    Some(id) => state.rooms@[j].id != id,
                    None => true,
                }),
        decreases state.rooms.len() - i,
    {
        let other = match except {
            Some(id) => state.rooms[i].id != id,
            None => true,
        };
        if state.rooms[i].room_number == *n && other {
            return true;
        }
        i = i + 1;
    }
    false
}

/// Whether an open task other than those that carry `except` (when given)
/// is scheduled for `room` on `date`.
pub fn slot_taken(state: &AppStateInner, room: u128, date: &String, except: Option<u128>) -> (r: bool)
    ensures
        except is None ==> r == state@.slot_taken(room, date@),
        except matches Some(id) ==> r == state@.slot_taken_by_other(room, date@, id),
{
    let mut i: usize = 0;
    while i < state.tasks.len()
        invariant
            i <= state.tasks.len(),
            forall|j: int|
                0 <= j < i ==> !(#[trigger] state.tasks@[j].room_id == room
                    && state.tasks@[j].scheduled_date@ == date@ && is_open(state.tasks@[j].status)
                    && match except {
                    Some(id) => state.tasks@[j].id != id,
                    None => true,
                }),
        decreases state.tasks.len() - i,
    {
        let t = &state.tasks[i];
        let other = match except {
            Some(id) => t.id != id,
            None => true,
        };
        if t.room_id == room && t.scheduled_date == *date && task_is_open(t.status) && other {
            return true;
        }
        i = i + 1;
    }
    false
}

/// Whether an open task for `room` is left once the task that carries `id`,
/// or the one at position `skip`, is set aside.
pub fn room_busy(state: &AppStateInner, room: u128, id: u128, skip: Option<usize>) -> (r: bool)
    ensures
        skip is None ==> r == state@.room_busy_except(room, id),
        skip matches Some(k) ==> r == state@.room_busy_besides(room, k as int),
{
    let mut i: usize = 0;
    while i < state.tasks.len()
        invariant
            i <= state.tasks.len(),
            forall|j: int|
                0 <= j < i ==> !(#[trigger] state.tasks@[j].room_id == room
                    && is_open(state.tasks@[j].status) && match skip {
                    Some(k) => j != k,
                    None => state.tasks@[j].id != id,
                }),
        decreases state.tasks.len() - i,
    {
        let t = &state.tasks[i];
        let other = match skip {
            Some(k) => i != k,
            None => t.id != id,
        };
        if t.room_id == room && task_is_open(t.status) && other {
            return true;
        }
        i = i + 1;
    }
    false
}

} // verus!
