//! The weather.
pub mod layout;
pub mod page;
