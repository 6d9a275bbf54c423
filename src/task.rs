use vstd::prelude::*;
use crate::calendar::CalendarDate;

verus! {

/// Clock time of a deadline, in local time.
#[derive(Clone, Copy, Debug, PartialEq, Eq, Structural)]
pub struct TimeOfDay {
    pub hour: u32,
    pub minute: u32,
    pub second: u32,
    pub nanosecond: u32,
}

/// When a task is due: a calendar day and a local clock time on it.
#[derive(Clone, Copy, Debug, PartialEq, Eq, Structural)]
pub struct Deadline {
    pub date: CalendarDate,
    pub time: TimeOfDay,
}

/// One entry of the task list.
#[derive(Clone, Debug, PartialEq, Eq)]
pub struct Task {
    pub name: String,
    pub completed: bool,
    pub deadline: Option<Deadline>,
    pub priority: u8,
}

} // verus!
