//! The names of the files on the card.
pub mod lfn;
pub mod names;
