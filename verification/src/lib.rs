//! Time-progress computations for a terminal clock that shows how much of the
//! hour, day, week, month, year (and, optionally, a life) has gone by.

pub mod calendar;
pub mod clock;
pub mod text;
pub mod theme;
pub mod progress;
pub mod args;
pub mod layout;
pub mod watch;
