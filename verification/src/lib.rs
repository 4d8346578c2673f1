//! Elapsed time between two calendar dates, decomposed into
//! years/months/days or a plain day count, and rendered as text.

pub mod cli;
pub mod date;
pub mod elapsed;
