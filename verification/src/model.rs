//! What each request does to the store and what it answers, stated over the
//! store's contents. Every refusal leaves the store as it was.

use crate::error::{AppErrorView, Rejection, bad};
use crate::models::{
    Cleaner, CleaningTask, CleaningTaskDetail, CreateCleaner, CreateCleaningTask, CreateRoom, Room,
    RoomStatus, TaskStatus, UpdateCleaner, UpdateCleaningTask, UpdateProgress, UpdateRoom, detail_of,
    is_open,
};
use crate::state::{
    StoreView, cleaner_ids, cleaner_other_than, first_index, room_ids, room_other_than,
    set_room_status, task_ids, task_other_than,
};
use crate::text::is_blank;
use chrono::NaiveDateTime;
use vstd::prelude::*;

verus! {

/// `o`'s value, or `d` when it is absent.
pub open spec fn or_keep<T>(o: Option<T>, d: T) -> T {
    match o {
        Some(v) => v,
        None => d,
    }
}

/// Which rule a progress step from `from` to `to` breaks, if any.
pub open spec fn progress_refusal(from: TaskStatus, to: TaskStatus) -> Option<Rejection> {
    match to {
        TaskStatus::InProgress => if from is Pending {
            None
        } else {
            Some(Rejection::StartNeedsPending)
        },
        TaskStatus::Completed => if from is InProgress {
            None
        } else {
            Some(Rejection::CompleteNeedsInProgress)
        },
        TaskStatus::Cancelled => if is_open(from) {
            None
        } else {
            Some(Rejection::CancelNeedsOpen)
        },
        TaskStatus::Pending => Some(Rejection::NoReturnToPending),
    }
}

impl StoreView {
    pub open spec fn index_of_cleaner(self, id: u128) -> Option<int> {
        first_index(cleaner_ids(self.cleaners), id)
    }

    pub open spec fn index_of_room(self, id: u128) -> Option<int> {
        first_index(room_ids(self.rooms), id)
    }

    pub open spec fn index_of_task(self, id: u128) -> Option<int> {
        first_index(task_ids(self.tasks), id)
    }

    /// The first cleaner that carries `id`.
    pub open spec fn cleaner_at(self, id: u128) -> Option<Cleaner> {
        match self.index_of_cleaner(id) {
            Some(i) => Some(self.cleaners[i]),
            None => None,
        }
    }

    /// The first room that carries `id`.
    pub open spec fn room_at(self, id: u128) -> Option<Room> {
        match self.index_of_room(id) {
            Some(i) => Some(self.rooms[i]),
            None => None,
        }
    }

    /// The first task that carries `id`.
    pub open spec fn task_at(self, id: u128) -> Option<CleaningTask> {
        match self.index_of_task(id) {
            Some(i) => Some(self.tasks[i]),
            None => None,
        }
    }

    pub open spec fn knows_cleaner(self, id: u128) -> bool {
        cleaner_ids(self.cleaners).contains(id)
    }

    pub open spec fn knows_room(self, id: u128) -> bool {
        room_ids(self.rooms).contains(id)
    }

    /// Some task is assigned to cleaner `id`.
    pub open spec fn cleaner_has_tasks(self, id: u128) -> bool {
        exists|j: int| 0 <= j < self.tasks.len() && #[trigger] self.tasks[j].cleaner_id == id
    }

    /// Some task is for room `id`.
    pub open spec fn room_has_tasks(self, id: u128) -> bool {
        exists|j: int| 0 <= j < self.tasks.len() && #[trigger] self.tasks[j].room_id == id
    }

    /// Some room is numbered `n`.
    pub open spec fn number_taken(self, n: Seq<char>) -> bool {
        exists|j: int| 0 <= j < self.rooms.len() && #[trigger] self.rooms[j].room_number@ == n
    }

    /// Some room that does not carry `id` is numbered `n`.
    pub open spec fn number_taken_by_other(self, n: Seq<char>, id: u128) -> bool {
        exists|j: int|
            0 <= j < self.rooms.len() && #[trigger] self.rooms[j].room_number@ == n
                && self.rooms[j].id != id
    }

    /// An open task is scheduled for room `room` on `date`.
    pub open spec fn slot_taken(self, room: u128, date: Seq<char>) -> bool {
        exists|j: int|
            0 <= j < self.tasks.len() && #[trigger] self.tasks[j].room_id == room
                && self.tasks[j].scheduled_date@ == date && is_open(self.tasks[j].status)
    }

    /// An open task that does not carry `id` is scheduled for `room` on `date`.
    pub open spec fn slot_taken_by_other(self, room: u128, date: Seq<char>, id: u128) -> bool {
        exists|j: int|
            0 <= j < self.tasks.len() && #[trigger] self.tasks[j].room_id == room
                && self.tasks[j].scheduled_date@ == date && is_open(self.tasks[j].status)
                && self.tasks[j].id != id
    }

    /// An open task that does not carry `id` is for room `room`.
    pub open spec fn room_busy_except(self, room: u128, id: u128) -> bool {
        exists|j: int|
            0 <= j < self.tasks.len() && #[trigger] self.tasks[j].room_id == room
                && is_open(self.tasks[j].status) && self.tasks[j].id != id
    }

    /// An open task other than the one at position `i` is for room `room`.
    pub open spec fn room_busy_besides(self, room: u128, i: int) -> bool {
        exists|j: int|
            0 <= j < self.tasks.len() && #[trigger] self.tasks[j].room_id == room
                && is_open(self.tasks[j].status) && j != i
    }

    // ---- cleaners ----
    pub open spec fn list_cleaners(self) -> Seq<Cleaner> {
        self.cleaners
    }

    pub open spec fn get_cleaner(self, id: u128) -> Result<Cleaner, AppErrorView> {
        match self.cleaner_at(id) {
            Some(c) => Ok(c),
            None => Err(AppErrorView::NotFound),
        }
    }

    pub open spec fn create_cleaner(self, p: CreateCleaner, id: u128, now: NaiveDateTime) -> (
        StoreView,
        Result<Cleaner, AppErrorView>,
    ) {
        if is_blank(p.name@) {
            (self, Err(bad(Rejection::CleanerNameEmpty)))
        } else {
            let c = Cleaner { id, name: p.name, phone: p.phone, created_at: now };
            (StoreView { cleaners: self.cleaners.push(c), ..self }, Ok(c))
        }
    }

    pub open spec fn update_cleaner(self, id: u128, p: UpdateCleaner) -> (
        StoreView,
        Result<Cleaner, AppErrorView>,
    ) {
        match self.index_of_cleaner(id) {
            None => (self, Err(AppErrorView::NotFound)),
            Some(i) => if p.name matches Some(n) && is_blank(n@) {
                (self, Err(bad(Rejection::CleanerNameEmpty)))
            } else {
                let old = self.cleaners[i];
                let c = Cleaner {
                    name: or_keep(p.name, old.name),
                    phone: or_keep(p.phone, old.phone),
                    ..old
                };
                (StoreView { cleaners: self.cleaners.update(i, c), ..self }, Ok(c))
            },
        }
    }

    pub open spec fn delete_cleaner(self, id: u128) -> (StoreView, Result<(), AppErrorView>) {
        if self.cleaner_has_tasks(id) {
            (self, Err(bad(Rejection::CleanerHasTasks)))
        } else if !self.knows_cleaner(id) {
            (self, Err(AppErrorView::NotFound))
        } else {
            (StoreView { cleaners: self.cleaners.filter(cleaner_other_than(id)), ..self }, Ok(()))
        }
    }

    // ---- rooms ----
    pub open spec fn list_rooms(self) -> Seq<Room> {
        self.rooms
    }

    pub open spec fn get_room(self, id: u128) -> Result<Room, AppErrorView> {
        match self.room_at(id) {
            Some(r) => Ok(r),
            None => Err(AppErrorView::NotFound),
        }
    }

    /// Which rule a new room `p` breaks, if any.
    pub open spec fn room_creation_refusal(self, p: CreateRoom) -> Option<Rejection> {
        if is_blank(p.room_number@) {
            Some(Rejection::RoomNumberEmpty)
        } else if self.number_taken(p.room_number@) {
            Some(Rejection::RoomNumberTaken)
        } else {
            None
        }
    }

    pub open spec fn create_room(self, p: CreateRoom, id: u128, now: NaiveDateTime) -> (
        StoreView,
        Result<Room, AppErrorView>,
    ) {
        if let Some(why) = self.room_creation_refusal(p) {
            (self, Err(bad(why)))
        } else {
            let r = Room {
                id,
                room_number: p.room_number,
                floor: p.floor,
                room_type: p.room_type,
                status: RoomStatus::Available,
                created_at: now,
            };
            (StoreView { rooms: self.rooms.push(r), ..self }, Ok(r))
        }
    }

    /// Which rule a change `p` of room `id` breaks, if any.
    pub open spec fn room_update_refusal(self, id: u128, p: UpdateRoom) -> Option<Rejection> {
        match p.room_number {
            Some(n) => if is_blank(n@) {
                Some(Rejection::RoomNumberEmpty)
            } else if self.number_taken_by_other(n@, id) {
                Some(Rejection::RoomNumberTaken)
            } else {
                None
            },
            None => None,
        }
    }

    pub open spec fn update_room(self, id: u128, p: UpdateRoom) -> (
        StoreView,
        Result<Room, AppErrorView>,
    ) {
        match self.index_of_room(id) {
            None => (self, Err(AppErrorView::NotFound)),
            Some(i) => match self.room_update_refusal(id, p) {
                Some(why) => (self, Err(bad(why))),
                None => {
                    let old = self.rooms[i];
                    let r = Room {
                        room_number: or_keep(p.room_number, old.room_number),
                        floor: or_keep(p.floor, old.floor),
                        room_type: or_keep(p.room_type, old.room_type),
                        status: or_keep(p.status, old.status),
                        ..old
                    };
                    (StoreView { rooms: self.rooms.update(i, r), ..self }, Ok(r))
                },
            },
        }
    }

    pub open spec fn delete_room(self, id: u128) -> (StoreView, Result<(), AppErrorView>) {
        if self.room_has_tasks(id) {
            (self, Err(bad(Rejection::RoomHasTasks)))
        } else if !self.knows_room(id) {
            (self, Err(AppErrorView::NotFound))
        } else {
            (StoreView { rooms: self.rooms.filter(room_other_than(id)), ..self }, Ok(()))
        }
    }

    // ---- tasks ----
    /// Task `t` with its cleaner and its room, when both are there.
    pub open spec fn resolve(self, t: CleaningTask) -> Option<CleaningTaskDetail> {
        match (self.cleaner_at(t.cleaner_id), self.room_at(t.room_id)) {
            (Some(c), Some(r)) => Some(detail_of(t, c, r)),
            _ => None,
        }
    }

    /// The details of the tasks, in order, leaving out those whose cleaner or
    /// room is missing.
    pub open spec fn list_tasks(self) -> Seq<CleaningTaskDetail> {
        self.tasks.filter_map(self.resolver())
    }

    pub open spec fn resolver(self) -> spec_fn(CleaningTask) -> Option<CleaningTaskDetail> {
        |t: CleaningTask| self.resolve(t)
    }

    pub open spec fn get_task(self, id: u128) -> Result<CleaningTaskDetail, AppErrorView> {
        match self.task_at(id) {
            None => Err(AppErrorView::NotFound),
            Some(t) => match (self.cleaner_at(t.cleaner_id), self.room_at(t.room_id)) {
                (Some(c), Some(r)) => Ok(detail_of(t, c, r)),
                _ => Err(AppErrorView::InternalServerError),
            },
        }
    }

    /// Which rule a new task `p` breaks, if any.
    pub open spec fn task_creation_refusal(self, p: CreateCleaningTask) -> Option<Rejection> {
        if is_blank(p.scheduled_date@) {
            Some(Rejection::DateEmpty)
        } else if !self.knows_cleaner(p.cleaner_id) {
            Some(Rejection::CleanerUnknown)
        } else if !self.knows_room(p.room_id) {
            Some(Rejection::RoomUnknown)
        } else if self.slot_taken(p.room_id, p.scheduled_date@) {
            Some(Rejection::SlotTaken)
        } else {
            None
        }
    }

    pub open spec fn create_task(self, p: CreateCleaningTask, id: u128, now: NaiveDateTime) -> (
        StoreView,
        Result<CleaningTaskDetail, AppErrorView>,
    ) {
        match self.task_creation_refusal(p) {
            Some(why) => (self, Err(bad(why))),
            None => {
                let t = CleaningTask {
                    id,
                    cleaner_id: p.cleaner_id,
                    room_id: p.room_id,
                    status: TaskStatus::Pending,
                    scheduled_date: p.scheduled_date,
                    remarks: p.remarks,
                    created_at: now,
                    updated_at: now,
                };
                let after = StoreView {
                    rooms: set_room_status(self.rooms, p.room_id, RoomStatus::Cleaning),
                    tasks: self.tasks.push(t),
                    ..self
                };
                (
                    after,
                    Ok(
                        detail_of(
                            t,
                            after.cleaner_at(p.cleaner_id).unwrap(),
                            after.room_at(p.room_id).unwrap(),
                        ),
                    ),
                )
            },
        }
    }

    /// Which rule a change `p` of the task at position `i` breaks, if any.
    pub open spec fn task_update_refusal(self, i: int, p: UpdateCleaningTask) -> Option<Rejection> {
        let cur = self.tasks[i];
        let room = or_keep(p.room_id, cur.room_id);
        let date = match p.scheduled_date {
            Some(d) => d@,
            None => cur.scheduled_date@,
        };
        if p.cleaner_id matches Some(c) && !self.knows_cleaner(c) {
            Some(Rejection::CleanerUnknown)
        } else if p.room_id matches Some(r) && !self.knows_room(r) {
            Some(Rejection::RoomUnknown)
        } else if p.scheduled_date matches Some(d) && is_blank(d@) {
            Some(Rejection::DateEmpty)
        } else if self.slot_taken_by_other(room, date, cur.id) {
            Some(Rejection::SlotTaken)
        } else {
            None
        }
    }

    /// The rooms after a change `p` of the task at position `i` that passed
    /// every check: a new status moves the task's room (and, on a
    /// cancellation that also moves the task, its former room) on.
    pub open spec fn rooms_after_task_update(self, i: int, p: UpdateCleaningTask) -> Seq<Room> {
        let cur = self.tasks[i];
        let new_room = or_keep(p.room_id, cur.room_id);
        match p.status {
            Some(TaskStatus::Completed) => set_room_status(self.rooms, new_room, RoomStatus::Available),
            Some(TaskStatus::InProgress) => set_room_status(self.rooms, new_room, RoomStatus::Cleaning),
            Some(TaskStatus::Cancelled) => {
                let first = if self.room_busy_except(new_room, cur.id) {
                    self.rooms
                } else {
                    set_room_status(self.rooms, new_room, RoomStatus::Available)
                };
                if cur.room_id != new_room && !self.room_busy_besides(cur.room_id, i) {
                    set_room_status(first, cur.room_id, RoomStatus::Available)
                } else {
                    first
                }
            },
            _ => self.rooms,
        }
    }

    pub open spec fn update_task(self, id: u128, p: UpdateCleaningTask, now: NaiveDateTime) -> (
        StoreView,
        Result<CleaningTaskDetail, AppErrorView>,
    ) {
        match self.index_of_task(id) {
            None => (self, Err(AppErrorView::NotFound)),
            Some(i) => match self.task_update_refusal(i, p) {
                Some(why) => (self, Err(bad(why))),
                None => {
                    let cur = self.tasks[i];
                    let t = CleaningTask {
                        cleaner_id: or_keep(p.cleaner_id, cur.cleaner_id),
                        room_id: or_keep(p.room_id, cur.room_id),
                        status: or_keep(p.status, cur.status),
                        scheduled_date: or_keep(p.scheduled_date, cur.scheduled_date),
                        remarks: if p.remarks is Some {
                            p.remarks
                        } else {
                            cur.remarks
                        },
                        updated_at: now,
                        ..cur
                    };
                    let after = StoreView {
                        rooms: self.rooms_after_task_update(i, p),
                        tasks: self.tasks.update(i, t),
                        ..self
                    };
                    (
                        after,
                        Ok(
                            detail_of(
                                t,
                                after.cleaner_at(t.cleaner_id).unwrap(),
                                after.room_at(t.room_id).unwrap(),
                            ),
                        ),
                    )
                },
            },
        }
    }

    /// A change of task `id` that passes every check leaves the task with a
    /// cleaner and a room to show.
    pub open spec fn task_update_resolvable(self, id: u128, p: UpdateCleaningTask) -> bool {
        match self.index_of_task(id) {
            Some(i) => self.task_update_refusal(i, p) is None ==> {
                &&& p.cleaner_id is None ==> self.knows_cleaner(self.tasks[i].cleaner_id)
                &&& p.room_id is None ==> self.knows_room(self.tasks[i].room_id)
            },
            None => true,
        }
    }

    pub open spec fn delete_task(self, id: u128) -> (StoreView, Result<(), AppErrorView>) {
        match self.index_of_task(id) {
            None => (self, Err(AppErrorView::NotFound)),
            Some(i) => {
                let room = self.tasks[i].room_id;
                let rooms = if self.room_busy_except(room, id) {
                    self.rooms
                } else {
                    set_room_status(self.rooms, room, RoomStatus::Available)
                };
                (StoreView { rooms, tasks: self.tasks.filter(task_other_than(id)), ..self }, Ok(()))
            },
        }
    }

    /// The rooms after the task at position `i` moves to `to`.
    pub open spec fn rooms_after_progress(self, i: int, to: TaskStatus) -> Seq<Room> {
        let cur = self.tasks[i];
        match to {
            TaskStatus::InProgress => set_room_status(self.rooms, cur.room_id, RoomStatus::Cleaning),
            TaskStatus::Completed => set_room_status(self.rooms, cur.room_id, RoomStatus::Available),
            TaskStatus::Cancelled => if self.room_busy_except(cur.room_id, cur.id) {
                self.rooms
            } else {
                set_room_status(self.rooms, cur.room_id, RoomStatus::Available)
            },
            TaskStatus::Pending => self.rooms,
        }
    }

    pub open spec fn update_task_progress(self, id: u128, p: UpdateProgress, now: NaiveDateTime) -> (
        StoreView,
        Result<CleaningTaskDetail, AppErrorView>,
    ) {
        match self.index_of_task(id) {
            None => (self, Err(AppErrorView::NotFound)),
            Some(i) => {
                let cur = self.tasks[i];
                match progress_refusal(cur.status, p.status) {
                    Some(why) => (self, Err(bad(why))),
                    None => {
                        let t = CleaningTask { status: p.status, updated_at: now, ..cur };
                        let after = StoreView {
                            rooms: self.rooms_after_progress(i, p.status),
                            tasks: self.tasks.update(i, t),
                            ..self
                        };
                        (
                            after,
                            Ok(
                                detail_of(
                                    t,
                                    after.cleaner_at(t.cleaner_id).unwrap(),
                                    after.room_at(t.room_id).unwrap(),
                                ),
                            ),
                        )
                    },
                }
            },
        }
    }

    /// A progress step of task `id` that passes the checks leaves the task
    /// with a cleaner and a room to show.
    pub open spec fn progress_resolvable(self, id: u128, p: UpdateProgress) -> bool {
        match self.index_of_task(id) {
            Some(i) => progress_refusal(self.tasks[i].status, p.status) is None ==> {
                &&& self.knows_cleaner(self.tasks[i].cleaner_id)
                &&& self.knows_room(self.tasks[i].room_id)
            },
            None => true,
        }
    }
}

} // verus!
