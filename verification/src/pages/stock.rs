//! Stock prices.
pub mod layout;
pub mod page;
