//! How urgent a due date is, seen from today.

use crate::calendar::{day_of, read_day, Day};
use crate::config::{Config, ConfigView};
use crate::task::{TaskError, TaskErrorView};
use vstd::prelude::*;

verus! {

/// The urgency of a due date.
#[derive(Clone, Copy, Debug, PartialEq, Eq)]
pub enum Status {
    /// Due two days ago or earlier.
    Late,
    /// Due the day before today.
    Yesterday,
    /// Due today.
    Today,
    /// Due soon: after today, and within the days of warning.
    Tomorrow,
    /// Due later than that.
    Future,
}

/// The status of a date that is due `diff` days from today, with
/// `warn_days_before` days of warning. The cases are tried in this order.
pub open spec fn status_of(diff: int, warn_days_before: int) -> Status {
    if diff < -1 {
        Status::Late
    } else if diff == -1 {
        Status::Yesterday
    } else if diff == 0 {
        Status::Today
    } else if diff <= warn_days_before {
        Status::Tomorrow
    } else {
        Status::Future
    }
}

/// Each status has its own days: every pair of a difference and a warning
/// falls into exactly one of the five. Without days of warning, or with a
/// negative number of them, no date is due soon.
pub proof fn lemma_status_partition(diff: int, warn_days_before: int)
    ensures
        status_of(diff, warn_days_before) == Status::Late <==> diff < -1,
        status_of(diff, warn_days_before) == Status::Yesterday <==> diff == -1,
        status_of(diff, warn_days_before) == Status::Today <==> diff == 0,
        status_of(diff, warn_days_before) == Status::Tomorrow <==> 0 < diff <= warn_days_before,
        status_of(diff, warn_days_before) == Status::Future <==> diff > 0 && diff
            > warn_days_before,
        warn_days_before <= 0 ==> status_of(diff, warn_days_before) != Status::Tomorrow,
{
}

/// The status of a task due on `due`, seen from `today`.
pub fn classify(due: Day, today: Day, warn_days_before: i32) -> (r: Status)
    ensures
        r == status_of(due.number - today.number, warn_days_before as int),
{
    let diff: i64 = due.number as i64 - today.number as i64;
    if diff < -1 {
        Status::Late
    } else if diff == -1 {
        Status::Yesterday
    } else if diff == 0 {
        Status::Today
    } else if diff <= warn_days_before as i64 {
        Status::Tomorrow
    } else {
        Status::Future
    }
}

/// The status of a date written in the configured format.
pub open spec fn status_of_date(date: Seq<char>, config: ConfigView, today: Day) -> Result<
    Status,
    TaskErrorView,
> {
    match day_of(date, config.format) {
        Ok(due) => Ok(status_of(due.number - today.number, config.warn_days_before)),
        Err(e) => Err(e),
    }
}

/// How a classification came out, as plain values.
pub open spec fn status_view(r: Result<Status, TaskError>) -> Result<Status, TaskErrorView> {
    match r {
        Ok(status) => Ok(status),
        Err(e) => Err(e@),
    }
}

/// Reads a date in the configured format and classifies it.
pub fn check_date(date: &str, config: &Config, today: Day) -> (r: Result<Status, TaskError>)
    ensures
        status_view(r) == status_of_date(date@, config@, today),
{
    match read_day(date, config.date.format.as_str()) {
        Ok(due) => Ok(classify(due, today, config.date.warn_days_before)),
        Err(e) => Err(e),
    }
}

} // verus!
