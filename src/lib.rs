//! Task tracking with a month calendar: the date arithmetic, the task list
//! cursor and the focus-driven key handling of an interactive task manager.

pub mod calendar;
pub mod entry;
pub mod task;
pub mod state;
