//! The screens of the device.
use vstd::prelude::*;

pub mod calendar;
pub mod debug_page;
pub mod image_page;
pub mod main_page;
pub mod read;
pub mod read_page;
pub mod setting_page;
pub mod stock;
pub mod watch;
pub mod weather;

verus! {

/// The pictures of the main menu.
#[derive(Clone, Copy, Debug, PartialEq, Eq, Structural)]
pub enum IconType {
    Book,
    Image,
    Weather,
    Calendar,
    Settings,
    Debug,
    Stock,
}

/// The screens.
#[derive(Clone, Copy, Debug, PartialEq, Eq, Structural)]
pub enum PageEnum {
    EMainPage,
    EClockPage,
    ETimerPage,
    EWeatherPage,
    ECalendarPage,
    EChip8Page,
    ESettingPage,
    EReadPage,
    EImageListPage,
    EDebugPage,
    EStockPage,
}

/// An entry of the main menu.
#[derive(Clone, Copy, Debug, PartialEq, Eq, Structural)]
pub struct MenuItem {
    pub page_enum: PageEnum,
    pub icon: IconType,
}

impl MenuItem {
    /// An entry.
    pub fn new(page_enum: PageEnum, icon: IconType) -> (m: MenuItem)
        ensures
            m.page_enum == page_enum,
            m.icon == icon,
    {
        MenuItem { page_enum, icon }
    }
}

/// What the device does on its next start after the reader was left: whether it reads, and which
/// page it enters.
#[derive(Clone, Copy, Debug, PartialEq, Eq, Structural)]
pub struct Restart {
    pub reading: bool,
    pub page_index: i32,
}

/// Whether the reader waits once more for the panel, after it has waited so many times.
pub fn waits_for_panel(panel_ready: bool, waited: u32) -> (r: bool)
    ensures
        r == (!panel_ready && waited <= 150),
{
    !panel_ready && waited <= 150
}

/// After the reader was left, the device starts with the main menu.
pub fn reading_task_done() -> (r: Restart)
    ensures
        !r.reading,
        r.page_index == -1,
{
    Restart { reading: false, page_index: -1 }
}

} // verus!
