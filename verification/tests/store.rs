use chrono::{NaiveDate, NaiveDateTime};
use hotel_cleaning::error::AppError;
use hotel_cleaning::handlers::{
    progress_resolves, task_update_resolves,
    create_cleaner, create_cleaner_with, create_room, create_room_with, create_task,
    create_task_with, delete_cleaner, delete_room, delete_task, get_cleaner, get_room, get_task,
    list_cleaners, list_rooms, list_tasks, update_cleaner, update_room, update_task,
    update_task_progress, update_task_progress_with, update_task_with,
};
use hotel_cleaning::models::{
    CreateCleaner, CreateCleaningTask, CreateRoom, RoomStatus, TaskStatus, UpdateCleaner,
    UpdateCleaningTask, UpdateProgress, UpdateRoom,
};
use hotel_cleaning::state::AppStateInner;
use hotel_cleaning::text::{blank, is_white_space_char};

fn at(h: u32) -> NaiveDateTime {
    NaiveDate::from_ymd_opt(2024, 5, 1).unwrap().and_hms_opt(h, 0, 0).unwrap()
}

fn bad(msg: &str) -> AppError {
    AppError::BadRequest(msg.to_string())
}

fn cleaner(name: &str) -> CreateCleaner {
    CreateCleaner { name: name.to_string(), phone: "13800000000".to_string() }
}

fn room(number: &str) -> CreateRoom {
    CreateRoom { room_number: number.to_string(), floor: 3, room_type: "双人间".to_string() }
}

fn task(cleaner_id: u128, room_id: u128, date: &str) -> CreateCleaningTask {
    CreateCleaningTask {
        cleaner_id,
        room_id,
        scheduled_date: date.to_string(),
        remarks: None,
    }
}

fn no_change() -> UpdateCleaningTask {
    UpdateCleaningTask { cleaner_id: None, room_id: None, status: None, scheduled_date: None, remarks: None }
}

/// A store with cleaner 1, rooms 10 and 11, and task 100 (cleaner 1, room 10, 2024-05-02).
fn seeded() -> AppStateInner {
    let mut s = AppStateInner::default();
    create_cleaner_with(&mut s, cleaner("张三"), 1, at(8)).unwrap();
    create_room_with(&mut s, room("301"), 10, at(8)).unwrap();
    create_room_with(&mut s, room("302"), 11, at(8)).unwrap();
    create_task_with(&mut s, task(1, 10, "2024-05-02"), 100, at(9)).unwrap();
    s
}

#[test]
fn blank_text_is_white_space_only() {
    assert!(blank(""));
    assert!(blank("   \t\n"));
    assert!(blank("\u{3000}\u{a0}\u{2009}"));
    assert!(!blank(" a "));
    assert!(!blank("张"));
    assert!(!blank("\u{200b}"));
}

#[test]
fn empty_store_lists_nothing() {
    let s = AppStateInner::default();
    assert!(list_cleaners(&s).is_empty());
    assert!(list_rooms(&s).is_empty());
    assert!(list_tasks(&s).is_empty());
    assert_eq!(get_cleaner(&s, 1), Err(AppError::NotFound));
    assert_eq!(get_room(&s, 1), Err(AppError::NotFound));
    assert_eq!(get_task(&s, 1), Err(AppError::NotFound));
}

#[test]
fn created_cleaner_is_found() {
    let mut s = AppStateInner::default();
    let c = create_cleaner_with(&mut s, cleaner("李四"), 7, at(8)).unwrap();
    assert_eq!(c.id, 7);
    assert_eq!(c.name, "李四");
    assert_eq!(c.phone, "13800000000");
    assert_eq!(c.created_at, at(8));
    assert_eq!(get_cleaner(&s, 7), Ok(c.clone()));
    assert_eq!(list_cleaners(&s), vec![c]);
}

#[test]
fn blank_cleaner_name_is_refused_and_nothing_changes() {
    let mut s = AppStateInner::default();
    assert_eq!(create_cleaner_with(&mut s, cleaner("  "), 7, at(8)), Err(bad("保洁员姓名不能为空")));
    assert!(list_cleaners(&s).is_empty());
}

#[test]
fn fresh_identifiers_differ_and_time_is_taken() {
    let mut s = AppStateInner::default();
    let a = create_cleaner(&mut s, cleaner("甲")).unwrap();
    let b = create_cleaner(&mut s, cleaner("乙")).unwrap();
    assert_ne!(a.id, b.id);
    assert_ne!(a.id, 0);
    assert_eq!(uuid::Uuid::from_u128(a.id).get_version_num(), 4);
    assert!(a.created_at > at(0));
    assert_eq!(get_cleaner(&s, b.id), Ok(b));
}

#[test]
fn update_cleaner_changes_given_fields_only() {
    let mut s = seeded();
    let upd = UpdateCleaner { name: None, phone: Some("139".to_string()) };
    let c = update_cleaner(&mut s, 1, upd).unwrap();
    assert_eq!(c.name, "张三");
    assert_eq!(c.phone, "139");
    assert_eq!(get_cleaner(&s, 1), Ok(c));
}

#[test]
fn update_cleaner_refusals() {
    let mut s = seeded();
    let upd = UpdateCleaner { name: Some(" ".to_string()), phone: Some("139".to_string()) };
    assert_eq!(update_cleaner(&mut s, 1, upd), Err(bad("保洁员姓名不能为空")));
    assert_eq!(get_cleaner(&s, 1).unwrap().phone, "13800000000");
    let upd = UpdateCleaner { name: Some("王五".to_string()), phone: None };
    assert_eq!(update_cleaner(&mut s, 2, upd), Err(AppError::NotFound));
}

#[test]
fn cleaner_with_tasks_cannot_be_deleted() {
    let mut s = seeded();
    assert_eq!(delete_cleaner(&mut s, 1), Err(bad("该保洁员有关联的清洁工单，无法删除")));
    assert!(get_cleaner(&s, 1).is_ok());
    assert_eq!(delete_task(&mut s, 100), Ok(()));
    assert_eq!(delete_cleaner(&mut s, 1), Ok(()));
    assert_eq!(get_cleaner(&s, 1), Err(AppError::NotFound));
    assert_eq!(delete_cleaner(&mut s, 1), Err(AppError::NotFound));
}

#[test]
fn created_room_is_available_and_found() {
    let mut s = AppStateInner::default();
    let r = create_room_with(&mut s, room("501"), 5, at(8)).unwrap();
    assert_eq!(r.status, RoomStatus::Available);
    assert_eq!(r.floor, 3);
    assert_eq!(get_room(&s, 5), Ok(r.clone()));
    assert_eq!(list_rooms(&s), vec![r]);
    let other = create_room(&mut s, room("502")).unwrap();
    assert_eq!(get_room(&s, other.id), Ok(other));
}

#[test]
fn room_number_rules() {
    let mut s = seeded();
    assert_eq!(create_room_with(&mut s, room(""), 12, at(8)), Err(bad("房间编号不能为空")));
    assert_eq!(create_room_with(&mut s, room("301"), 12, at(8)), Err(bad("房间编号已存在")));
    assert_eq!(list_rooms(&s).len(), 2);
    let to = |n: &str| UpdateRoom { room_number: Some(n.to_string()), floor: None, room_type: None, status: None };
    assert_eq!(update_room(&mut s, 11, to("301")), Err(bad("房间编号已存在")));
    assert_eq!(update_room(&mut s, 11, to(" ")), Err(bad("房间编号不能为空")));
    assert_eq!(update_room(&mut s, 99, to("303")), Err(AppError::NotFound));
    // keeping its own number is allowed
    let r = update_room(&mut s, 11, to("302")).unwrap();
    assert_eq!(r.room_number, "302");
}

#[test]
fn update_room_changes_given_fields_only() {
    let mut s = seeded();
    let upd = UpdateRoom { room_number: None, floor: Some(5), room_type: None, status: Some(RoomStatus::Occupied) };
    let r = update_room(&mut s, 11, upd).unwrap();
    assert_eq!(r.room_number, "302");
    assert_eq!(r.floor, 5);
    assert_eq!(r.room_type, "双人间");
    assert_eq!(r.status, RoomStatus::Occupied);
    assert_eq!(get_room(&s, 11), Ok(r));
    let upd = UpdateRoom { room_number: None, floor: Some(5), room_type: None, status: None };
    assert_eq!(update_room(&mut s, 99, upd), Err(AppError::NotFound));
}

#[test]
fn room_with_tasks_cannot_be_deleted() {
    let mut s = seeded();
    assert_eq!(delete_room(&mut s, 10), Err(bad("该房间有关联的清洁工单，无法删除")));
    assert_eq!(delete_room(&mut s, 11), Ok(()));
    assert_eq!(get_room(&s, 11), Err(AppError::NotFound));
    assert_eq!(delete_room(&mut s, 11), Err(AppError::NotFound));
    assert_eq!(list_rooms(&s).len(), 1);
}

#[test]
fn created_task_puts_room_into_cleaning() {
    let mut s = seeded();
    let d = get_task(&s, 100).unwrap();
    assert_eq!(d.status, TaskStatus::Pending);
    assert_eq!(d.cleaner.id, 1);
    assert_eq!(d.room.id, 10);
    assert_eq!(d.room.status, RoomStatus::Cleaning);
    assert_eq!(d.created_at, at(9));
    assert_eq!(d.updated_at, at(9));
    assert_eq!(get_room(&s, 10).unwrap().status, RoomStatus::Cleaning);
    assert_eq!(get_room(&s, 11).unwrap().status, RoomStatus::Available);
    let t = create_task(&mut s, task(1, 11, "2024-05-03")).unwrap();
    assert_eq!(get_task(&s, t.id), Ok(t));
    assert_eq!(list_tasks(&s).len(), 2);
}

#[test]
fn task_creation_refusals() {
    let mut s = seeded();
    assert_eq!(create_task_with(&mut s, task(1, 10, " "), 101, at(9)), Err(bad("计划日期不能为空")));
    assert_eq!(create_task_with(&mut s, task(2, 10, "2024-05-09"), 101, at(9)), Err(bad("指定的保洁员不存在")));
    assert_eq!(create_task_with(&mut s, task(1, 12, "2024-05-09"), 101, at(9)), Err(bad("指定的房间不存在")));
    assert_eq!(
        create_task_with(&mut s, task(1, 10, "2024-05-02"), 101, at(9)),
        Err(bad("该房间在指定日期已有未完成的清洁工单"))
    );
    assert_eq!(list_tasks(&s).len(), 1);
    assert_eq!(get_task(&s, 101), Err(AppError::NotFound));
}

#[test]
fn closed_task_frees_its_slot() {
    let mut s = seeded();
    update_task_progress_with(&mut s, 100, UpdateProgress { status: TaskStatus::Cancelled }, at(10)).unwrap();
    assert!(create_task_with(&mut s, task(1, 10, "2024-05-02"), 101, at(11)).is_ok());
}

#[test]
fn progress_follows_the_allowed_steps() {
    let mut s = seeded();
    let step = |st: TaskStatus| UpdateProgress { status: st };
    assert_eq!(
        update_task_progress_with(&mut s, 100, step(TaskStatus::Completed), at(10)),
        Err(bad("只有进行中的工单才能标记完成"))
    );
    assert_eq!(
        update_task_progress_with(&mut s, 100, step(TaskStatus::Pending), at(10)),
        Err(bad("不能将工单状态回退为待处理"))
    );
    let d = update_task_progress_with(&mut s, 100, step(TaskStatus::InProgress), at(10)).unwrap();
    assert_eq!(d.status, TaskStatus::InProgress);
    assert_eq!(d.updated_at, at(10));
    assert_eq!(d.created_at, at(9));
    assert_eq!(d.room.status, RoomStatus::Cleaning);
    assert_eq!(
        update_task_progress_with(&mut s, 100, step(TaskStatus::InProgress), at(11)),
        Err(bad("只有待处理的工单才能开始清洁"))
    );
    let d = update_task_progress_with(&mut s, 100, step(TaskStatus::Completed), at(12)).unwrap();
    assert_eq!(d.status, TaskStatus::Completed);
    assert_eq!(d.room.status, RoomStatus::Available);
    assert_eq!(get_task(&s, 100), Ok(d));
    assert_eq!(
        update_task_progress_with(&mut s, 100, step(TaskStatus::Cancelled), at(13)),
        Err(bad("已完成或已取消的工单无法取消"))
    );
    assert_eq!(
        update_task_progress(&mut s, 999, step(TaskStatus::Cancelled)),
        Err(AppError::NotFound)
    );
}

#[test]
fn cancelling_keeps_room_busy_while_another_task_is_open() {
    let mut s = seeded();
    create_task_with(&mut s, task(1, 10, "2024-05-03"), 101, at(9)).unwrap();
    let d = update_task_progress_with(&mut s, 100, UpdateProgress { status: TaskStatus::Cancelled }, at(10)).unwrap();
    assert_eq!(d.room.status, RoomStatus::Cleaning);
    let d = update_task_progress_with(&mut s, 101, UpdateProgress { status: TaskStatus::Cancelled }, at(10)).unwrap();
    assert_eq!(d.room.status, RoomStatus::Available);
}

#[test]
fn deleting_last_open_task_frees_the_room() {
    let mut s = seeded();
    create_task_with(&mut s, task(1, 10, "2024-05-03"), 101, at(9)).unwrap();
    assert_eq!(delete_task(&mut s, 100), Ok(()));
    assert_eq!(get_room(&s, 10).unwrap().status, RoomStatus::Cleaning);
    assert_eq!(delete_task(&mut s, 101), Ok(()));
    assert_eq!(get_room(&s, 10).unwrap().status, RoomStatus::Available);
    assert_eq!(get_task(&s, 101), Err(AppError::NotFound));
    assert_eq!(delete_task(&mut s, 101), Err(AppError::NotFound));
}

#[test]
fn update_task_moves_and_checks() {
    let mut s = seeded();
    create_cleaner_with(&mut s, cleaner("李四"), 2, at(8)).unwrap();
    let mut u = no_change();
    u.cleaner_id = Some(3);
    assert_eq!(update_task_with(&mut s, 100, u, at(10)), Err(bad("指定的保洁员不存在")));
    let mut u = no_change();
    u.room_id = Some(12);
    assert_eq!(update_task_with(&mut s, 100, u, at(10)), Err(bad("指定的房间不存在")));
    let mut u = no_change();
    u.scheduled_date = Some("".to_string());
    assert_eq!(update_task_with(&mut s, 100, u, at(10)), Err(bad("计划日期不能为空")));
    assert_eq!(update_task_with(&mut s, 999, no_change(), at(10)), Err(AppError::NotFound));

    let mut u = no_change();
    u.cleaner_id = Some(2);
    u.room_id = Some(11);
    u.remarks = Some("换床单".to_string());
    let d = update_task_with(&mut s, 100, u, at(10)).unwrap();
    assert_eq!(d.cleaner.id, 2);
    assert_eq!(d.room.id, 11);
    assert_eq!(d.remarks, Some("换床单".to_string()));
    assert_eq!(d.scheduled_date, "2024-05-02");
    assert_eq!(d.updated_at, at(10));
    assert_eq!(get_task(&s, 100), Ok(d));
    // absent remarks keep the old ones
    let d = update_task(&mut s, 100, no_change()).unwrap();
    assert_eq!(d.remarks, Some("换床单".to_string()));
}

#[test]
fn update_task_refuses_a_taken_slot() {
    let mut s = seeded();
    create_task_with(&mut s, task(1, 11, "2024-05-02"), 101, at(9)).unwrap();
    let mut u = no_change();
    u.room_id = Some(10);
    assert_eq!(update_task_with(&mut s, 101, u, at(10)), Err(bad("该房间在指定日期已有未完成的清洁工单")));
    // the task's own slot does not count against it
    let mut u = no_change();
    u.scheduled_date = Some("2024-05-02".to_string());
    assert!(update_task_with(&mut s, 100, u, at(10)).is_ok());
}

#[test]
fn cancelling_a_moved_task_frees_both_rooms() {
    let mut s = seeded();
    let mut u = no_change();
    u.room_id = Some(11);
    u.status = Some(TaskStatus::Cancelled);
    let d = update_task_with(&mut s, 100, u, at(10)).unwrap();
    assert_eq!(d.status, TaskStatus::Cancelled);
    assert_eq!(get_room(&s, 10).unwrap().status, RoomStatus::Available);
    assert_eq!(get_room(&s, 11).unwrap().status, RoomStatus::Available);
}

#[test]
fn update_task_status_moves_the_room() {
    let mut s = seeded();
    let mut u = no_change();
    u.status = Some(TaskStatus::Completed);
    let d = update_task_with(&mut s, 100, u, at(10)).unwrap();
    assert_eq!(d.room.status, RoomStatus::Available);
    let mut u = no_change();
    u.status = Some(TaskStatus::InProgress);
    let d = update_task_with(&mut s, 100, u, at(11)).unwrap();
    assert_eq!(d.status, TaskStatus::InProgress);
    assert_eq!(d.room.status, RoomStatus::Cleaning);
}

#[test]
fn dangling_references_are_reported() {
    let mut s = seeded();
    // a store put together by hand, with the task's cleaner gone
    s.cleaners.clear();
    assert_eq!(get_task(&s, 100), Err(AppError::InternalServerError));
    assert!(list_tasks(&s).is_empty());
}

#[test]
fn resolvability_checks() {
    let mut s = seeded();
    assert!(task_update_resolves(&s, 100, &no_change()));
    assert!(progress_resolves(&s, 100, &UpdateProgress { status: TaskStatus::InProgress }));
    assert!(task_update_resolves(&s, 999, &no_change()));
    s.rooms.clear();
    assert!(!task_update_resolves(&s, 100, &no_change()));
    assert!(!progress_resolves(&s, 100, &UpdateProgress { status: TaskStatus::InProgress }));
    // a refused step never reaches the missing room
    assert!(progress_resolves(&s, 100, &UpdateProgress { status: TaskStatus::Pending }));
    let mut u = no_change();
    u.room_id = Some(10);
    // the request names a room that is gone, so it is refused before any lookup
    assert!(task_update_resolves(&s, 100, &u));
    assert_eq!(
        update_task_progress_with(&mut s, 100, UpdateProgress { status: TaskStatus::Pending }, at(10)),
        Err(bad("不能将工单状态回退为待处理"))
    );
}

#[test]
fn every_task_is_listed_while_the_rules_hold() {
    let mut s = seeded();
    create_cleaner_with(&mut s, cleaner("李四"), 2, at(8)).unwrap();
    create_task_with(&mut s, task(2, 11, "2024-05-02"), 101, at(9)).unwrap();
    create_task_with(&mut s, task(1, 10, "2024-05-03"), 102, at(9)).unwrap();
    delete_task(&mut s, 100).unwrap();
    let listed = list_tasks(&s);
    assert_eq!(listed.iter().map(|d| d.id).collect::<Vec<_>>(), vec![101, 102]);
    assert_eq!(listed[0].cleaner.name, "李四");
    for d in &listed {
        assert_eq!(get_task(&s, d.id).as_ref(), Ok(d));
    }
}

#[test]
fn refused_requests_change_nothing() {
    let mut s = seeded();
    let before_tasks = list_tasks(&s);
    let before_rooms = list_rooms(&s);
    let before_cleaners = list_cleaners(&s);
    let _ = create_room_with(&mut s, room("301"), 12, at(9));
    let _ = delete_room(&mut s, 10);
    let _ = delete_cleaner(&mut s, 1);
    let _ = create_task_with(&mut s, task(1, 10, "2024-05-02"), 101, at(9));
    let mut u = no_change();
    u.status = Some(TaskStatus::Cancelled);
    u.scheduled_date = Some(" ".to_string());
    let _ = update_task_with(&mut s, 100, u, at(10));
    let _ = update_task_progress_with(&mut s, 100, UpdateProgress { status: TaskStatus::Completed }, at(10));
    assert_eq!(list_tasks(&s), before_tasks);
    assert_eq!(list_rooms(&s), before_rooms);
    assert_eq!(list_cleaners(&s), before_cleaners);
}

#[test]
fn white_space_by_code_point() {
    for c in ['\t', '\n', '\r', ' ', '\u{85}', '\u{a0}', '\u{1680}', '\u{2000}', '\u{200a}', '\u{2028}', '\u{2029}', '\u{202f}', '\u{205f}', '\u{3000}'] {
        assert!(is_white_space_char(c), "{:?}", c);
        assert_eq!(c.is_whitespace(), true);
    }
    for c in ['a', '\u{8}', '\u{200b}', '\u{180e}', '\u{feff}', '张'] {
        assert!(!is_white_space_char(c), "{:?}", c);
        assert_eq!(c.is_whitespace(), false);
    }
}

#[test]
fn room_number_stays_taken_across_other_requests() {
    let mut s = AppStateInner::default();
    create_room_with(&mut s, room("301"), 10, at(8)).unwrap();
    create_cleaner_with(&mut s, cleaner("张三"), 1, at(8)).unwrap();
    create_task_with(&mut s, task(1, 10, "2024-05-02"), 100, at(9)).unwrap();
    update_task_progress_with(&mut s, 100, UpdateProgress { status: TaskStatus::InProgress }, at(10)).unwrap();
    delete_task(&mut s, 100).unwrap();
    let before = list_rooms(&s);
    let again = CreateRoom { room_number: "301".to_string(), floor: 9, room_type: "套房".to_string() };
    assert_eq!(create_room_with(&mut s, again, 11, at(11)), Err(bad("房间编号已存在")));
    assert_eq!(list_rooms(&s), before);
}
