//! Extraction of a waste-collection calendar from the schedule page of
//! mojiodpadki.si, and the requests that lead to that page.

pub mod calendar;
pub mod error;
pub mod laws;
pub mod search;
pub mod text;
