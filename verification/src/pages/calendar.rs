//! The calendar.
pub mod layout;
pub mod page;
