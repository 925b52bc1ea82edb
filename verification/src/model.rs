//! Data that is shown.
pub mod daily;
pub mod holiday;
pub mod lunar;
pub mod open_meteo;
pub mod stock;
