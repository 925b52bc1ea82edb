//! What is kept in flash.
pub mod area;
pub mod codec;
pub mod lists;
pub mod records;
