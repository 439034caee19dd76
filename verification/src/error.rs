//! How a request is refused.

use vstd::prelude::*;
use vstd::string::*;

verus! {

/// The answer to a request that cannot be carried out.
#[derive(Debug, PartialEq)]
pub enum AppError {
    /// The record named by the request does not exist.
    NotFound,
    /// The request breaks a rule; the text says which one.
    BadRequest(String),
    /// A task refers to a cleaner or a room that is gone.
    InternalServerError,
}

/// An `AppError` with its text taken as a sequence of characters.
pub enum AppErrorView {
    NotFound,
    BadRequest(Seq<char>),
    InternalServerError,
}

impl View for AppError {
    type V = AppErrorView;

    open spec fn view(&self) -> AppErrorView {
        match self {
            AppError::NotFound => AppErrorView::NotFound,
            AppError::BadRequest(m) => AppErrorView::BadRequest(m@),
            AppError::InternalServerError => AppErrorView::InternalServerError,
        }
    }
}

/// A result with its error taken by its view.
pub open spec fn outcome<T>(r: Result<T, AppError>) -> Result<T, AppErrorView> {
    match r {
        Ok(v) => Ok(v),
        Err(e) => Err(e@),
    }
}

/// The rules that a request can break.
#[derive(Debug, Clone, Copy, PartialEq, Eq, Structural)]
pub enum Rejection {
    CleanerNameEmpty,
    CleanerHasTasks,
    RoomNumberEmpty,
    RoomNumberTaken,
    RoomHasTasks,
    DateEmpty,
    CleanerUnknown,
    RoomUnknown,
    SlotTaken,
    StartNeedsPending,
    CompleteNeedsInProgress,
    CancelNeedsOpen,
    NoReturnToPending,
}

impl Rejection {
    /// The text that tells the client which rule was broken.
    pub open spec fn message(self) -> Seq<char> {
        match self {
            Rejection::CleanerNameEmpty => "保洁员姓名不能为空"@,
            Rejection::CleanerHasTasks => "该保洁员有关联的清洁工单，无法删除"@,
            Rejection::RoomNumberEmpty => "房间编号不能为空"@,
            Rejection::RoomNumberTaken => "房间编号已存在"@,
            Rejection::RoomHasTasks => "该房间有关联的清洁工单，无法删除"@,
            Rejection::DateEmpty => "计划日期不能为空"@,
            Rejection::CleanerUnknown => "指定的保洁员不存在"@,
            Rejection::RoomUnknown => "指定的房间不存在"@,
            Rejection::SlotTaken => "该房间在指定日期已有未完成的清洁工单"@,
            Rejection::StartNeedsPending => "只有待处理的工单才能开始清洁"@,
            Rejection::CompleteNeedsInProgress => "只有进行中的工单才能标记完成"@,
            Rejection::CancelNeedsOpen => "已完成或已取消的工单无法取消"@,
            Rejection::NoReturnToPending => "不能将工单状态回退为待处理"@,
        }
    }

    /// The text of this rejection.
    pub fn text(self) -> (s: String)
        ensures
            s@ == self.message(),
    {
        match self {
            Rejection::CleanerNameEmpty => String::from_str("保洁员姓名不能为空"),
            Rejection::CleanerHasTasks => String::from_str("该保洁员有关联的清洁工单，无法删除"),
            Rejection::RoomNumberEmpty => String::from_str("房间编号不能为空"),
            Rejection::RoomNumberTaken => String::from_str("房间编号已存在"),
            Rejection::RoomHasTasks => String::from_str("该房间有关联的清洁工单，无法删除"),
            Rejection::DateEmpty => String::from_str("计划日期不能为空"),
            Rejection::CleanerUnknown => String::from_str("指定的保洁员不存在"),
            Rejection::RoomUnknown => String::from_str("指定的房间不存在"),
            Rejection::SlotTaken => String::from_str("该房间在指定日期已有未完成的清洁工单"),
            Rejection::StartNeedsPending => String::from_str("只有待处理的工单才能开始清洁"),
            Rejection::CompleteNeedsInProgress => String::from_str("只有进行中的工单才能标记完成"),
            Rejection::CancelNeedsOpen => String::from_str("已完成或已取消的工单无法取消"),
            Rejection::NoReturnToPending => String::from_str("不能将工单状态回退为待处理"),
        }
    }
}

/// The view of the refusal for breaking rule `r`.
pub open spec fn bad(r: Rejection) -> AppErrorView {
    AppErrorView::BadRequest(r.message())
}

/// The refusal for breaking rule `r`.
pub fn bad_request(r: Rejection) -> (e: AppError)
    ensures
        e@ == bad(r),
{
    AppError::BadRequest(r.text())
}

} // verus!
