//! The records that the service stores and the requests that it accepts.
//! Identifiers are the 128-bit values of UUIDs.

use chrono::NaiveDateTime;
use vstd::prelude::*;

verus! {

/// A member of the cleaning staff.
#[derive(Debug, PartialEq)]
pub struct Cleaner {
    pub id: u128,
    pub name: String,
    pub phone: String,
    pub created_at: NaiveDateTime,
}

impl Clone for Cleaner {
    fn clone(&self) -> (r: Self)
        ensures
            r == *self,
    {
        Cleaner {
            id: self.id,
            name: self.name.clone(),
            phone: self.phone.clone(),
            created_at: self.created_at,
        }
    }
}

/// A request to add a cleaner.
#[derive(Debug, Clone, PartialEq)]
pub struct CreateCleaner {
    pub name: String,
    pub phone: String,
}

/// A request to change a cleaner; absent fields stay as they are.
#[derive(Debug, Clone, PartialEq)]
pub struct UpdateCleaner {
    pub name: Option<String>,
    pub phone: Option<String>,
}

/// Whether a room can be let, is let, or is being cleaned.
#[derive(Debug, Clone, Copy, PartialEq, Eq, Structural)]
pub enum RoomStatus {
    Available,
    Occupied,
    Cleaning,
}

/// A hotel room.
#[derive(Debug, PartialEq)]
pub struct Room {
    pub id: u128,
    pub room_number: String,
    pub floor: i32,
    pub room_type: String,
    pub status: RoomStatus,
    pub created_at: NaiveDateTime,
}

impl Clone for Room {
    fn clone(&self) -> (r: Self)
        ensures
            r == *self,
    {
        Room {
            id: self.id,
            room_number: self.room_number.clone(),
            floor: self.floor,
            room_type: self.room_type.clone(),
            status: self.status,
            created_at: self.created_at,
        }
    }
}

/// A request to add a room.
#[derive(Debug, Clone, PartialEq)]
pub struct CreateRoom {
    pub room_number: String,
    pub floor: i32,
    pub room_type: String,
}

/// A request to change a room; absent fields stay as they are.
#[derive(Debug, Clone, PartialEq)]
pub struct UpdateRoom {
    pub room_number: Option<String>,
    pub floor: Option<i32>,
    pub room_type: Option<String>,
    pub status: Option<RoomStatus>,
}

/// Where a cleaning task stands.
#[derive(Debug, Clone, Copy, PartialEq, Eq, Structural)]
pub enum TaskStatus {
    Pending,
    InProgress,
    Completed,
    Cancelled,
}

/// A task is open until it is completed or cancelled.
pub open spec fn is_open(s: TaskStatus) -> bool {
    s is Pending || s is InProgress
}

/// Whether a task in status `s` is still open.
pub fn task_is_open(s: TaskStatus) -> (r: bool)
    ensures
        r == is_open(s),
{
    match s {
        TaskStatus::Pending | TaskStatus::InProgress => true,
        TaskStatus::Completed | TaskStatus::Cancelled => false,
    }
}

fn copy_remarks(r: &Option<String>) -> (c: Option<String>)
    ensures
        c == *r,
{
    match r {
        Some(s) => Some(s.clone()),
        None => None,
    }
}

/// The cleaning of one room by one cleaner on one date.
#[derive(Debug, PartialEq)]
pub struct CleaningTask {
    pub id: u128,
    pub cleaner_id: u128,
    pub room_id: u128,
    pub status: TaskStatus,
    pub scheduled_date: String,
    pub remarks: Option<String>,
    pub created_at: NaiveDateTime,
    pub updated_at: NaiveDateTime,
}

impl Clone for CleaningTask {
    fn clone(&self) -> (r: Self)
        ensures
            r == *self,
    {
        CleaningTask {
            id: self.id,
            cleaner_id: self.cleaner_id,
            room_id: self.room_id,
            status: self.status,
            scheduled_date: self.scheduled_date.clone(),
            remarks: copy_remarks(&self.remarks),
            created_at: self.created_at,
            updated_at: self.updated_at,
        }
    }
}

/// A request to schedule a cleaning task.
#[derive(Debug, Clone, PartialEq)]
pub struct CreateCleaningTask {
    pub cleaner_id: u128,
    pub room_id: u128,
    pub scheduled_date: String,
    pub remarks: Option<String>,
}

/// A request to change a task; absent fields stay as they are.
#[derive(Debug, Clone, PartialEq)]
pub struct UpdateCleaningTask {
    pub cleaner_id: Option<u128>,
    pub room_id: Option<u128>,
    pub status: Option<TaskStatus>,
    pub scheduled_date: Option<String>,
    pub remarks: Option<String>,
}

/// A task together with its cleaner and its room.
#[derive(Debug, PartialEq)]
pub struct CleaningTaskDetail {
    pub id: u128,
    pub cleaner: Cleaner,
    pub room: Room,
    pub status: TaskStatus,
    pub scheduled_date: String,
    pub remarks: Option<String>,
    pub created_at: NaiveDateTime,
    pub updated_at: NaiveDateTime,
}

/// The detail of task `t` with cleaner `c` and room `r`.
pub open spec fn detail_of(t: CleaningTask, c: Cleaner, r: Room) -> CleaningTaskDetail {
    CleaningTaskDetail {
        id: t.id,
        cleaner: c,
        room: r,
        status: t.status,
        scheduled_date: t.scheduled_date,
        remarks: t.remarks,
        created_at: t.created_at,
        updated_at: t.updated_at,
    }
}

/// Builds the detail of a task from copies of its parts.
pub fn make_detail(t: &CleaningTask, c: Cleaner, r: Room) -> (d: CleaningTaskDetail)
    ensures
        d == detail_of(*t, c, r),
{
    CleaningTaskDetail {
        id: t.id,
        cleaner: c,
        room: r,
        status: t.status,
        scheduled_date: t.scheduled_date.clone(),
        remarks: copy_remarks(&t.remarks),
        created_at: t.created_at,
        updated_at: t.updated_at,
    }
}

/// A request to move a task forward.
#[derive(Debug, Clone, PartialEq)]
pub struct UpdateProgress {
    pub status: TaskStatus,
}

} // verus!
