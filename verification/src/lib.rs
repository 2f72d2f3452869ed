//! Weekly schedules in a compact notation, and the decisions of a supervisor
//! that lets one command run only while its schedule is active.
//!
//! A schedule is written as day-group clauses such as `12345[09:00-17:00]`:
//! digits `1` to `7` name the weekdays, Monday first, and the brackets hold
//! the ranges of the day during which the schedule is active.

pub mod daygroup;
pub mod error;
pub mod outside;
pub mod supervisor;
pub mod time;
pub mod timespan;
pub mod timespec;
