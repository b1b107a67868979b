//! Weekly caretaker rotation: which caretaker is on duty in each ISO week,
//! computed from a start date, a cyclic list of caretakers and one-off overrides.

pub mod date;
pub mod schedule;
pub mod week_key;
