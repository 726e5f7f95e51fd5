//! A habit and to-do tracker: habits with completion dates and streaks, to-do
//! items, and the selection state of the list that shows them.

pub mod calendar;
pub mod cli;
pub mod date;
pub mod date_set;
pub mod edits;
pub mod habit;
pub mod projection;
pub mod session;
pub mod string_specs;
pub mod text;
pub mod todo;
pub mod ui;
