//! Small helpers.

pub mod bytes;
pub mod laws;
pub mod listing;
pub mod text;
pub mod time;
