//! The main menu.
use vstd::prelude::*;
#[allow(unused_imports)]
use vstd::string::*;

use crate::draw::{lemma_texts, texts, Area, Canvas, DrawOp, Ink, Op};
use crate::event::EventType;
use crate::pages::{IconType, MenuItem, PageEnum};

verus! {

/// How many entries the menu has.
pub const MENU_LEN: u32 = 6;

/// How many pictures are in a row.
pub const COLUMNS: u32 = 3;

/// The entry that shows what is kept of a crash.
pub const DEBUG_INDEX: i32 = 5;

/// The main menu: the page that runs, if any, and the chosen entry.
#[derive(Clone, Copy, Debug, PartialEq, Eq, Structural)]
pub struct MainPage {
    pub current_page: Option<u32>,
    pub choose_index: u32,
    pub need_render: bool,
    /// The page that the device enters when it starts; below nought for the menu.
    pub page_index: i32,
}

/// What the main loop does next.
#[derive(Clone, Copy, Debug, PartialEq, Eq, Structural)]
pub enum MainStep {
    /// The menu is shown, and drawn where it has changed.
    Menu,
    /// The page runs until it ends; the menu then comes back.
    Run(PageEnum),
    /// Nothing runs, and the menu comes back.
    Back,
    /// Nothing happens.
    Idle,
}

/// The entries of the menu.
pub open spec fn entry(i: int) -> (PageEnum, IconType, Seq<char>) {
    if i == 0 {
        (PageEnum::EReadPage, IconType::Book, "电子书"@)
    } else if i == 1 {
        (PageEnum::EWeatherPage, IconType::Weather, "天气"@)
    } else if i == 2 {
        (PageEnum::ECalendarPage, IconType::Calendar, "日历"@)
    } else if i == 3 {
        (PageEnum::EImageListPage, IconType::Image, "图片"@)
    } else if i == 4 {
        (PageEnum::ESettingPage, IconType::Settings, "设置"@)
    } else {
        (PageEnum::EDebugPage, IconType::Debug, "调试"@)
    }
}

/// An entry of the menu and its title.
pub fn menu_item(i: u32) -> (m: (MenuItem, &'static str))
    requires
        i < MENU_LEN,
    ensures
        (m.0.page_enum, m.0.icon, m.1@) == entry(i as int),
{
    if i == 0 {
        (MenuItem::new(PageEnum::EReadPage, IconType::Book), "电子书")
    } else if i == 1 {
        (MenuItem::new(PageEnum::EWeatherPage, IconType::Weather), "天气")
    } else if i == 2 {
        (MenuItem::new(PageEnum::ECalendarPage, IconType::Calendar), "日历")
    } else if i == 3 {
        (MenuItem::new(PageEnum::EImageListPage, IconType::Image), "图片")
    } else if i == 4 {
        (MenuItem::new(PageEnum::ESettingPage, IconType::Settings), "设置")
    } else {
        (MenuItem::new(PageEnum::EDebugPage, IconType::Debug), "调试")
    }
}

impl MainPage {
    /// The chosen entry and the page that runs are in the menu.
    pub open spec fn valid(self) -> bool {
        &&& self.choose_index < MENU_LEN
        &&& self.current_page matches Some(p) ==> p < MENU_LEN
        &&& self.page_index < MENU_LEN
    }

    /// The menu with its first entry chosen.
    pub fn new() -> (p: MainPage)
        ensures
            p == (MainPage { current_page: None, choose_index: 0, need_render: true, page_index: 1 }),
            p.valid(),
    {
        MainPage { current_page: None, choose_index: 0, need_render: true, page_index: 1 }
    }

    /// The menu when the device starts: it enters the page that was kept. In the mode for finding
    /// faults, with a crash on record, it enters the page that shows the crash instead.
    pub fn init(page_index: i32, debug: bool, error_count: Option<u32>) -> (p: MainPage)
        requires
            page_index < MENU_LEN,
        ensures
            p.valid(),
            p.choose_index == 0,
            p.need_render,
            p.page_index == page_index,
            ({
                let first = if debug && (error_count matches Some(n) && n > 0) {
                    DEBUG_INDEX
                } else {
                    page_index
                };
                p.current_page == (if first > -1 {
                    Some(first as u32)
                } else {
                    None
                })
            }),
    {
        let mut first: i32 = page_index;
        if debug {
            if let Some(n) = error_count {
                if n > 0 {
                    first = DEBUG_INDEX;
                }
            }
        }
        let current_page = if first > -1 {
            Some(first as u32)
        } else {
            None
        };
        MainPage { current_page, choose_index: 0, need_render: true, page_index }
    }

    /// The next entry, if there is one.
    pub open spec fn increased(self) -> MainPage {
        if self.choose_index < MENU_LEN - 1 {
            MainPage { choose_index: (self.choose_index + 1) as u32, need_render: true, ..self }
        } else {
            self
        }
    }

    /// Chooses the next entry, if there is one.
    pub fn increase(self) -> (p: MainPage)
        ensures
            p == self.increased(),
            self.valid() ==> p.valid(),
    {
        if self.choose_index < MENU_LEN - 1 {
            MainPage { choose_index: self.choose_index + 1, need_render: true, ..self }
        } else {
            self
        }
    }

    /// The entry before, if there is one.
    pub open spec fn decreased(self) -> MainPage {
        if self.choose_index > 0 {
            MainPage { choose_index: (self.choose_index - 1) as u32, need_render: true, ..self }
        } else {
            self
        }
    }

    /// Chooses the entry before, if there is one.
    pub fn decrease(self) -> (p: MainPage)
        ensures
            p == self.decreased(),
            self.valid() ==> p.valid(),
    {
        if self.choose_index > 0 {
            MainPage { choose_index: self.choose_index - 1, need_render: true, ..self }
        } else {
            self
        }
    }

    /// The page that runs has ended: the menu comes back.
    pub fn back(self) -> (p: MainPage)
        ensures
            p == (MainPage { current_page: None, need_render: true, ..self }),
            self.valid() ==> p.valid(),
    {
        MainPage { current_page: None, need_render: true, ..self }
    }

    /// The menu after a key event: the first and the second key choose, the third enters.
    pub open spec fn handled(self, e: EventType) -> MainPage {
        if e == EventType::KeyShort(2) {
            self.increased()
        } else if e == EventType::KeyShort(1) {
            self.decreased()
        } else if e == EventType::KeyShort(3) {
            MainPage {
                current_page: Some(self.choose_index),
                page_index: self.choose_index as i32,
                ..self
            }
        } else {
            self
        }
    }

    /// Handles a key event.
    pub fn handle_event(self, e: EventType) -> (p: MainPage)
        requires
            self.valid(),
        ensures
            p == self.handled(e),
            p.valid(),
    {
        match e {
            EventType::KeyShort(2) => self.increase(),
            EventType::KeyShort(1) => self.decrease(),
            EventType::KeyShort(3) => MainPage {
                current_page: Some(self.choose_index),
                page_index: self.choose_index as i32,
                ..self
            },
            _ => self,
        }
    }

    /// What the main loop does next.
    pub fn run(self) -> (step: MainStep)
        requires
            self.valid(),
        ensures
            step == (match self.current_page {
                None => MainStep::Menu,
                Some(p) => MainStep::Run(entry(p as int).0),
            }),
    {
        match self.current_page {
            None => MainStep::Menu,
            Some(p) => {
                let (item, _) = menu_item(p);
                step_for(item.page_enum)
            },
        }
    }

    /// Draws the menu.
    pub fn render(self, w: u32, h: u32) -> (c: Canvas)
        requires
            self.valid(),
        ensures
            c@.len() == 2,
            c@[0] == Op::Clear(Ink::White),
            c@[1] matches Op::Grid(icons, titles, n, a, cols) && n == self.choose_index && a == (
            Area { x: 0, y: 0, w, h }) && cols == COLUMNS && icons.len() == MENU_LEN
                && titles.len() == MENU_LEN && forall|i: int|
                0 <= i < MENU_LEN ==> icons[i] == (#[trigger] entry(i)).1 && titles[i] == entry(i).2,
    {
        let mut icons: Vec<IconType> = Vec::new();
        let mut titles: Vec<String> = Vec::new();
        let mut i: u32 = 0;
        while i < MENU_LEN
            invariant
                i <= MENU_LEN,
                icons@.len() == i,
                titles@.len() == i,
                forall|j: int|
                    0 <= j < i ==> icons@[j] == (#[trigger] entry(j)).1 && titles@[j]@ == entry(
                        j,
                    ).2,
            decreases MENU_LEN - i,
        {
            let (item, title) = menu_item(i);
            let mut t = String::new();
            t.append(title);
            assert(t@ =~= title@);
            icons.push(item.icon);
            titles.push(t);
            i += 1;
        }
        proof {
            lemma_texts(titles@);
        }
        let ghost shown = texts(titles@);
        let mut c = Canvas::new();
        c.clear(Ink::White);
        c.add_op(
            DrawOp::Grid(icons, titles, self.choose_index as usize, Area { x: 0, y: 0, w, h }, COLUMNS),
        );
        assert(c@[1]->Grid_1 == shown);
        c
    }
}

/// What a page calls for: some only bring the menu back.
pub fn step_for(p: PageEnum) -> (step: MainStep)
    ensures
        step == (match p {
            PageEnum::EMainPage => MainStep::Idle,
            PageEnum::EReadPage
            | PageEnum::EImageListPage
            | PageEnum::EWeatherPage
            | PageEnum::ECalendarPage
            | PageEnum::ESettingPage
            | PageEnum::EDebugPage => MainStep::Run(p),
            _ => MainStep::Back,
        }),
{
    match p {
        PageEnum::EMainPage => MainStep::Idle,
        PageEnum::EReadPage
        | PageEnum::EImageListPage
        | PageEnum::EWeatherPage
        | PageEnum::ECalendarPage
        | PageEnum::ESettingPage
        | PageEnum::EDebugPage => MainStep::Run(p),
        _ => MainStep::Back,
    }
}

/// An entry that is entered is the chosen one, and its page is entered again on the next start.
pub proof fn law_entered_page_is_kept(p: MainPage)
    requires
        p.valid(),
    ensures
        p.handled(EventType::KeyShort(3)).current_page == Some(p.choose_index),
        p.handled(EventType::KeyShort(3)).page_index == p.choose_index,
{
}

/// Forth and back leads to the same entry, unless the last one was chosen.
pub proof fn law_forth_and_back(p: MainPage)
    requires
        p.choose_index < MENU_LEN - 1,
    ensures
        p.handled(EventType::KeyShort(2)).handled(EventType::KeyShort(1)).choose_index
            == p.choose_index,
{
}

/// The entries of the main menu lead where they say: books, the weather, the calendar, pictures, the
/// settings and the debug page, in this order.
pub proof fn law_entries_lead_where_they_say(i: int)
    requires
        0 <= i < MENU_LEN,
    ensures
        entry(i).0 is EReadPage <==> entry(i).2[0] == '电',
        entry(i).0 is EReadPage <==> i == 0,
        entry(i).0 is EWeatherPage <==> entry(i).2[0] == '天',
        entry(i).0 is EWeatherPage <==> i == 1,
        entry(i).0 is ECalendarPage <==> entry(i).2[0] == '日',
        entry(i).0 is ECalendarPage <==> i == 2,
        entry(i).0 is EImageListPage <==> entry(i).2[0] == '图',
        entry(i).0 is EImageListPage <==> i == 3,
        entry(i).0 is ESettingPage <==> entry(i).2[0] == '设',
        entry(i).0 is ESettingPage <==> i == 4,
        entry(i).0 is EDebugPage <==> entry(i).2[0] == '调',
        entry(i).0 is EDebugPage <==> i == 5,
        entry(i).0 is EReadPage <==> entry(i).1 is Book,
        entry(i).0 is EWeatherPage <==> entry(i).1 is Weather,
        entry(i).0 is ECalendarPage <==> entry(i).1 is Calendar,
        entry(i).0 is EImageListPage <==> entry(i).1 is Image,
        entry(i).0 is ESettingPage <==> entry(i).1 is Settings,
        entry(i).0 is EDebugPage <==> entry(i).1 is Debug,
{
    reveal_strlit("电子书");
    reveal_strlit("天气");
    reveal_strlit("日历");
    reveal_strlit("图片");
    reveal_strlit("设置");
    reveal_strlit("调试");
}

/// The second key goes on in the menu, the first goes back, and the third enters what is chosen.
pub proof fn law_keys_choose_and_enter(p: MainPage)
    requires
        p.valid(),
    ensures
        p.choose_index + 1 < MENU_LEN ==> p.handled(EventType::KeyShort(2)).choose_index
            == p.choose_index + 1,
        p.choose_index + 1 == MENU_LEN ==> p.handled(EventType::KeyShort(2)) == p,
        p.choose_index > 0 ==> p.handled(EventType::KeyShort(1)).choose_index == p.choose_index - 1,
        p.choose_index == 0 ==> p.handled(EventType::KeyShort(1)) == p,
        p.handled(EventType::KeyShort(3)).current_page == Some(p.choose_index),
        p.handled(EventType::KeyShort(3)).choose_index == p.choose_index,
{
}

} // verus!
