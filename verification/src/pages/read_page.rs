//! The reader of books whose pages are kept in an index.
pub mod overlay;
pub mod page;
pub mod session;
pub mod sleep_image;
