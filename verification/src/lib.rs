//! The logic of a small e-paper reader: paging, pictures, calendars and menus.
pub mod battery;
pub mod bits;
pub mod bounded;
pub mod display;
pub mod draw;
pub mod epd2in9_txt;
pub mod event;
pub mod flash_sleep;
pub mod icons;
pub mod location;
pub mod model;
pub mod months;
pub mod pages;
pub mod panic;
pub mod request;
pub mod sd_mount;
pub mod sleep;
pub mod storage;
pub mod text;
pub mod ttf_sd;
pub mod txt_reader;
pub mod weather;
