//! Reading a book.
pub mod bitmap;
pub mod layout_176x264;
pub mod layout_400x300;
pub mod overlay;
pub mod page;
pub mod session;
pub mod tasks;
