//! What the keys do while books are listed and read.
use vstd::prelude::*;

use crate::event::EventType;

verus! {

/// How many lines the menu has.
pub const MENU_LEN: u32 = 9;

/// The last page that can be chosen where the book has no index.
pub const PAGE_MAX: u32 = 9999;

/// The menus over a page.
#[derive(Clone, Copy, Debug, PartialEq, Eq, Structural)]
pub enum MenuState {
    Closed,
    Popup { menu_index: u32 },
    JumpInput { input_num: u32 },
    BookmarkList { bm_index: u32, deleting: bool },
}

/// The reader, without its texts.
#[derive(Clone, Copy, Debug, PartialEq, Eq, Structural)]
pub struct ReadPage {
    pub running: bool,
    /// A book is open; otherwise the books are listed.
    pub reading: bool,
    pub need_render: bool,
    /// The text of the page is to be read.
    pub change_page: bool,
    /// The index is to be made even where there is one.
    pub force_indexing: bool,
    /// The index is being made.
    pub indexing: bool,
    /// The chosen book.
    pub choose_index: u32,
    /// How many pages the book has, where its index is known.
    pub total_page: Option<u32>,
    pub page_index: u32,
    pub menu_state: MenuState,
    pub save_bookmark_flag: bool,
    pub delete_bookmark_flag: bool,
    pub need_load_preview: bool,
    /// The panel is turned upside down.
    pub flipped: bool,
    /// For how long a key is held in the choice of a page.
    pub jump_accel: u32,
    /// The open book, which survives a restart.
    pub kept_book: Option<u32>,
}

/// What else is done after a key event.
#[derive(Clone, Copy, Debug, PartialEq, Eq, Structural)]
pub struct Effects {
    /// Events wait for so long.
    pub pause_ms: u32,
    /// The panel counts its quick refreshes anew.
    pub reset_render_times: bool,
    /// The preview of the bookmark is dropped.
    pub clear_preview: bool,
    /// The panel is turned.
    pub rotate: bool,
    /// The device goes to sleep at once.
    pub sleep: bool,
}

/// Nothing else.
pub open spec fn quiet() -> Effects {
    Effects {
        pause_ms: 0,
        reset_render_times: false,
        clear_preview: false,
        rotate: false,
        sleep: false,
    }
}

fn no_effects() -> (e: Effects)
    ensures
        e == quiet(),
{
    Effects {
        pause_ms: 0,
        reset_render_times: false,
        clear_preview: false,
        rotate: false,
        sleep: false,
    }
}

/// How many pages are skipped while a key is held: one for the first five ticks, then five, ten,
/// fifty, and in the end a hundred.
pub open spec fn step_at(tick: int) -> int {
    if tick < 5 {
        1
    } else if tick < 10 {
        5
    } else if tick < 20 {
        10
    } else if tick < 35 {
        50
    } else {
        100
    }
}

/// How many pages are skipped while a key is held.
pub fn accel_step(tick: u32) -> (n: u32)
    ensures
        n == step_at(tick as int),
{
    if tick < 5 {
        1
    } else if tick < 10 {
        5
    } else if tick < 20 {
        10
    } else if tick < 35 {
        50
    } else {
        100
    }
}

/// One more tick.
pub open spec fn ticked(tick: u32) -> u32 {
    if tick < u32::MAX {
        (tick + 1) as u32
    } else {
        tick
    }
}

fn tick_on(tick: u32) -> (t: u32)
    ensures
        t == ticked(tick),
{
    if tick < u32::MAX {
        tick + 1
    } else {
        tick
    }
}

/// How many bookmarks a log holds behind the place.
pub open spec fn bookmark_count(log_len: int) -> int {
    if log_len > 0 {
        log_len - 1
    } else {
        0
    }
}

impl ReadPage {
    /// The reader with a page chosen: no farther than behind the last. Without an index nothing
    /// happens.
    pub open spec fn page_changed(self, page: int) -> ReadPage {
        match self.total_page {
            None => self,
            Some(total) => ReadPage {
                page_index: (if page >= total {
                    total as int
                } else {
                    page
                }) as u32,
                change_page: true,
                need_render: true,
                ..self
            },
        }
    }

    /// Chooses a page.
    pub fn do_change_page(self, page: u64) -> (s: ReadPage)
        ensures
            s == self.page_changed(page as int),
    {
        match self.total_page {
            None => self,
            Some(total) => ReadPage {
                page_index: if page >= total as u64 {
                    total
                } else {
                    page as u32
                },
                change_page: true,
                need_render: true,
                ..self
            },
        }
    }

    /// The reader with a menu, drawn anew.
    pub open spec fn with_menu(self, m: MenuState) -> ReadPage {
        ReadPage { menu_state: m, need_render: true, ..self }
    }

    fn set_menu(self, m: MenuState) -> (s: ReadPage)
        ensures
            s == self.with_menu(m),
    {
        ReadPage { menu_state: m, need_render: true, ..self }
    }

    /// The reader before it runs; the open book is opened again.
    pub fn new(kept_book: Option<u32>) -> (s: ReadPage)
        ensures
            s == (ReadPage {
                running: false,
                reading: kept_book is Some,
                need_render: false,
                change_page: kept_book is Some,
                force_indexing: false,
                indexing: false,
                choose_index: match kept_book {
                    Some(b) => b,
                    None => 0,
                },
                total_page: None,
                page_index: 0,
                menu_state: MenuState::Closed,
                save_bookmark_flag: false,
                delete_bookmark_flag: false,
                need_load_preview: false,
                flipped: false,
                jump_accel: 0,
                kept_book,
            }),
    {
        let (open, choose_index): (bool, u32) = match kept_book {
            Some(b) => (true, b),
            None => (false, 0),
        };
        ReadPage {
            running: false,
            reading: open,
            need_render: false,
            change_page: open,
            force_indexing: false,
            indexing: false,
            choose_index,
            total_page: None,
            page_index: 0,
            menu_state: MenuState::Closed,
            save_bookmark_flag: false,
            delete_bookmark_flag: false,
            need_load_preview: false,
            flipped: false,
            jump_accel: 0,
            kept_book,
        }
    }

    /// The page ends.
    pub fn back(self) -> (s: ReadPage)
        ensures
            s == (ReadPage { running: false, ..self }),
    {
        ReadPage { running: false, ..self }
    }

    /// After the third key was held: a choice leads back to the menu, the book to the list, and the
    /// list out of the page.
    pub open spec fn held_3(self) -> ReadPage {
        match self.menu_state {
            MenuState::JumpInput { .. } | MenuState::BookmarkList { .. } => self.with_menu(
                MenuState::Popup { menu_index: 0 },
            ),
            _ => if self.reading {
                ReadPage {
                    reading: false,
                    kept_book: None,
                    menu_state: MenuState::Closed,
                    need_render: true,
                    ..self
                }
            } else {
                ReadPage { running: false, ..self }
            },
        }
    }

    fn key_3_held(self) -> (s: ReadPage)
        ensures
            s == self.held_3(),
    {
        match self.menu_state {
            MenuState::JumpInput { .. } | MenuState::BookmarkList { .. } => self.set_menu(
                MenuState::Popup { menu_index: 0 },
            ),
            _ => {
                if self.reading {
                    ReadPage {
                        reading: false,
                        kept_book: None,
                        menu_state: MenuState::Closed,
                        need_render: true,
                        ..self
                    }
                } else {
                    self.back()
                }
            },
        }
    }

    /// After a line of the menu was confirmed.
    pub open spec fn menu_confirmed(self, line: int) -> (ReadPage, Effects) {
        let closed = self.with_menu(MenuState::Closed);
        if line == 0 {
            (ReadPage { reading: false, kept_book: None, ..closed }, quiet())
        } else if line == 1 {
            (ReadPage { save_bookmark_flag: true, ..closed }, quiet())
        } else if line == 2 {
            (
                ReadPage {
                    need_load_preview: true,
                    ..self.with_menu(MenuState::BookmarkList { bm_index: 0, deleting: false })
                },
                quiet(),
            )
        } else if line == 3 {
            (
                self.with_menu(MenuState::BookmarkList { bm_index: 0, deleting: true }),
                Effects { clear_preview: true, ..quiet() },
            )
        } else if line == 4 {
            (
                ReadPage {
                    jump_accel: 0,
                    ..self.with_menu(MenuState::JumpInput { input_num: self.page_index })
                },
                quiet(),
            )
        } else if line == 5 {
            (ReadPage { flipped: !self.flipped, ..closed }, Effects { rotate: true, ..quiet() })
        } else if line == 6 {
            (ReadPage { force_indexing: true, total_page: None, ..closed }, quiet())
        } else if line == 7 {
            (self, Effects { sleep: true, ..quiet() })
        } else {
            (closed, quiet())
        }
    }

    fn confirm_menu(self, line: u32) -> (r: (ReadPage, Effects))
        ensures
            r == self.menu_confirmed(line as int),
    {
        let closed = self.set_menu(MenuState::Closed);
        if line == 0 {
            (ReadPage { reading: false, kept_book: None, ..closed }, no_effects())
        } else if line == 1 {
            (ReadPage { save_bookmark_flag: true, ..closed }, no_effects())
        } else if line == 2 {
            let s = self.set_menu(MenuState::BookmarkList { bm_index: 0, deleting: false });
            (ReadPage { need_load_preview: true, ..s }, no_effects())
        } else if line == 3 {
            let s = self.set_menu(MenuState::BookmarkList { bm_index: 0, deleting: true });
            (s, Effects { clear_preview: true, ..no_effects() })
        } else if line == 4 {
            let s = self.set_menu(MenuState::JumpInput { input_num: self.page_index });
            (ReadPage { jump_accel: 0, ..s }, no_effects())
        } else if line == 5 {
            (
                ReadPage { flipped: !self.flipped, ..closed },
                Effects { rotate: true, ..no_effects() },
            )
        } else if line == 6 {
            (ReadPage { force_indexing: true, total_page: None, ..closed }, no_effects())
        } else if line == 7 {
            (self, Effects { sleep: true, ..no_effects() })
        } else {
            (closed, no_effects())
        }
    }

    /// After the third key was pressed: it opens the menu or the chosen book, and confirms.
    pub open spec fn pressed_3(self, log: Seq<u32>) -> (ReadPage, Effects) {
        match self.menu_state {
            MenuState::Popup { menu_index } => self.menu_confirmed(menu_index as int),
            MenuState::JumpInput { input_num } => (
                self.page_changed(input_num as int).with_menu(MenuState::Closed),
                quiet(),
            ),
            MenuState::BookmarkList { bm_index, deleting } => if bm_index >= bookmark_count(
                log.len() as int,
            ) {
                (
                    self.with_menu(MenuState::Popup { menu_index: 0 }),
                    Effects { clear_preview: true, ..quiet() },
                )
            } else if deleting {
                (ReadPage { delete_bookmark_flag: true, need_render: true, ..self }, quiet())
            } else {
                (
                    self.page_changed(log[bm_index + 1] as int).with_menu(MenuState::Closed),
                    quiet(),
                )
            },
            MenuState::Closed => if self.reading {
                (self.with_menu(MenuState::Popup { menu_index: 0 }), quiet())
            } else {
                (
                    ReadPage {
                        reading: true,
                        change_page: true,
                        page_index: 0,
                        total_page: None,
                        kept_book: Some(self.choose_index),
                        need_render: true,
                        ..self
                    },
                    quiet(),
                )
            },
        }
    }

    fn key_3(self, log: &[u32]) -> (r: (ReadPage, Effects))
        ensures
            r == self.pressed_3(log@),
    {
        match self.menu_state {
            MenuState::Popup { menu_index } => self.confirm_menu(menu_index),
            MenuState::JumpInput { input_num } => {
                let s = self.do_change_page(input_num as u64);
                (s.set_menu(MenuState::Closed), no_effects())
            },
            MenuState::BookmarkList { bm_index, deleting } => {
                if log.len() == 0 || bm_index as usize >= log.len() - 1 {
                    (
                        self.set_menu(MenuState::Popup { menu_index: 0 }),
                        Effects { clear_preview: true, ..no_effects() },
                    )
                } else if deleting {
                    (
                        ReadPage { delete_bookmark_flag: true, need_render: true, ..self },
                        no_effects(),
                    )
                } else {
                    let s = self.do_change_page(log[bm_index as usize + 1] as u64);
                    (s.set_menu(MenuState::Closed), no_effects())
                }
            },
            MenuState::Closed => {
                if self.reading {
                    (self.set_menu(MenuState::Popup { menu_index: 0 }), no_effects())
                } else {
                    (
                        ReadPage {
                            reading: true,
                            change_page: true,
                            page_index: 0,
                            total_page: None,
                            kept_book: Some(self.choose_index),
                            need_render: true,
                            ..self
                        },
                        no_effects(),
                    )
                }
            },
        }
    }

    /// The line of the menu after the next key, or before: the ends meet.
    pub open spec fn menu_moved(i: int, down: bool) -> int {
        if down {
            if i < MENU_LEN - 1 {
                i + 1
            } else {
                0
            }
        } else {
            if i > 0 {
                i - 1
            } else {
                MENU_LEN - 1
            }
        }
    }

    fn move_menu(i: u32, down: bool) -> (r: u32)
        ensures
            r == Self::menu_moved(i as int, down),
    {
        if down {
            if i < MENU_LEN - 1 {
                i + 1
            } else {
                0
            }
        } else {
            if i > 0 {
                i - 1
            } else {
                MENU_LEN - 1
            }
        }
    }

    /// The last page that can be chosen.
    pub open spec fn last_page(self) -> int {
        match self.total_page {
            Some(t) => t as int,
            None => PAGE_MAX as int,
        }
    }

    /// After another bookmark was chosen: its text is shown, but for deleting.
    pub open spec fn bookmark_moved(self, bm_index: int, deleting: bool) -> ReadPage {
        ReadPage {
            need_load_preview: self.need_load_preview || !deleting,
            ..self.with_menu(MenuState::BookmarkList { bm_index: bm_index as u32, deleting })
        }
    }

    fn move_bookmark(self, bm_index: u32, deleting: bool) -> (s: ReadPage)
        ensures
            s == self.bookmark_moved(bm_index as int, deleting),
    {
        let s = self.set_menu(MenuState::BookmarkList { bm_index, deleting });
        ReadPage { need_load_preview: self.need_load_preview || !deleting, ..s }
    }

    /// While the first key is held, or the second: lists scroll, and pages are skipped ever faster.
    pub open spec fn holding(self, books: int, log_len: int, down: bool) -> (ReadPage, Effects) {
        match self.menu_state {
            MenuState::Popup { menu_index } => (
                self.with_menu(
                    MenuState::Popup {
                        menu_index: Self::menu_moved(menu_index as int, down) as u32,
                    },
                ),
                Effects { pause_ms: 200, ..quiet() },
            ),
            MenuState::JumpInput { input_num } => {
                let step = step_at(self.jump_accel as int);
                let n: int = if down {
                    if input_num + step <= self.last_page() {
                        input_num + step
                    } else {
                        self.last_page()
                    }
                } else {
                    if input_num >= step {
                        input_num - step
                    } else {
                        0
                    }
                };
                (
                    ReadPage {
                        jump_accel: ticked(self.jump_accel),
                        ..self.with_menu(MenuState::JumpInput { input_num: n as u32 })
                    },
                    Effects { pause_ms: 75, ..quiet() },
                )
            },
            MenuState::BookmarkList { bm_index, deleting } => if down && bm_index < bookmark_count(
                log_len,
            ) {
                (
                    self.bookmark_moved(bm_index + 1, deleting),
                    Effects { pause_ms: 200, ..quiet() },
                )
            } else if !down && bm_index > 0 {
                (
                    self.bookmark_moved(bm_index - 1, deleting),
                    Effects { pause_ms: 200, ..quiet() },
                )
            } else {
                (self, quiet())
            },
            MenuState::Closed => if !self.reading && (if down {
                books > 0 && self.choose_index < books - 1
            } else {
                books > 0 && self.choose_index > 0
            }) {
                (
                    ReadPage {
                        choose_index: (if down {
                            self.choose_index + 1
                        } else {
                            self.choose_index - 1
                        }) as u32,
                        need_render: true,
                        ..self
                    },
                    Effects { pause_ms: 200, reset_render_times: true, ..quiet() },
                )
            } else {
                (self, quiet())
            },
        }
    }

    #[verifier::rlimit(30)]
    fn key_held(self, books: u32, log_len: usize, down: bool) -> (r: (ReadPage, Effects))
        requires
            log_len <= u32::MAX,
        ensures
            r == self.holding(books as int, log_len as int, down),
    {
        match self.menu_state {
            MenuState::Popup { menu_index } => (
                self.set_menu(MenuState::Popup { menu_index: Self::move_menu(menu_index, down) }),
                Effects { pause_ms: 200, ..no_effects() },
            ),
            MenuState::JumpInput { input_num } => {
                let step: u32 = accel_step(self.jump_accel);
                let n: u32 = if down {
                    let last: u32 = match self.total_page {
                        Some(t) => t,
                        None => PAGE_MAX,
                    };
                    if input_num as u64 + step as u64 <= last as u64 {
                        input_num + step
                    } else {
                        last
                    }
                } else {
                    if input_num >= step {
                        input_num - step
                    } else {
                        0
                    }
                };
                let s = self.set_menu(MenuState::JumpInput { input_num: n });
                (
                    ReadPage { jump_accel: tick_on(self.jump_accel), ..s },
                    Effects { pause_ms: 75, ..no_effects() },
                )
            },
            MenuState::BookmarkList { bm_index, deleting } => {
                if down && log_len > 0 && (bm_index as usize) < log_len - 1 && bm_index < u32::MAX {
                    (
                        self.move_bookmark(bm_index + 1, deleting),
                        Effects { pause_ms: 200, ..no_effects() },
                    )
                } else if !down && bm_index > 0 {
                    (
                        self.move_bookmark(bm_index - 1, deleting),
                        Effects { pause_ms: 200, ..no_effects() },
                    )
                } else {
                    (self, no_effects())
                }
            },
            MenuState::Closed => {
                let moves = !self.reading && books > 0 && (if down {
                    self.choose_index < books - 1
                } else {
                    self.choose_index > 0
                });
                if moves {
                    let choose_index: u32 = if down {
                        self.choose_index + 1
                    } else {
                        self.choose_index - 1
                    };
                    (
                        ReadPage { choose_index, need_render: true, ..self },
                        Effects { pause_ms: 200, reset_render_times: true, ..no_effects() },
                    )
                } else {
                    (self, no_effects())
                }
            },
        }
    }

    /// After the first key was pressed, or the second: the next line, page or book, or the one
    /// before.
    pub open spec fn pressed(self, books: int, log_len: int, down: bool) -> ReadPage {
        match self.menu_state {
            MenuState::Popup { menu_index } => self.with_menu(
                MenuState::Popup { menu_index: Self::menu_moved(menu_index as int, down) as u32 },
            ),
            MenuState::JumpInput { input_num } => if down && input_num < self.last_page() {
                ReadPage {
                    jump_accel: 0,
                    ..self.with_menu(MenuState::JumpInput { input_num: (input_num + 1) as u32 })
                }
            } else if !down && input_num > 0 {
                ReadPage {
                    jump_accel: 0,
                    ..self.with_menu(MenuState::JumpInput { input_num: (input_num - 1) as u32 })
                }
            } else {
                self
            },
            MenuState::BookmarkList { bm_index, deleting } => if down && bm_index < bookmark_count(
                log_len,
            ) {
                self.bookmark_moved(bm_index + 1, deleting)
            } else if !down && bm_index > 0 {
                self.bookmark_moved(bm_index - 1, deleting)
            } else {
                self
            },
            MenuState::Closed => if self.reading {
                if down {
                    self.page_changed(self.page_index + 1)
                } else if self.page_index > 0 {
                    self.page_changed(self.page_index - 1)
                } else {
                    self
                }
            } else {
                ReadPage {
                    choose_index: (if books == 0 {
                        self.choose_index as int
                    } else if down {
                        if self.choose_index < books - 1 {
                            self.choose_index + 1
                        } else {
                            0
                        }
                    } else {
                        if self.choose_index > 0 {
                            self.choose_index - 1
                        } else {
                            books - 1
                        }
                    }) as u32,
                    need_render: true,
                    ..self
                }
            },
        }
    }

    #[verifier::rlimit(30)]
    fn key_pressed(self, books: u32, log_len: usize, down: bool) -> (s: ReadPage)
        requires
            log_len <= u32::MAX,
        ensures
            s == self.pressed(books as int, log_len as int, down),
    {
        match self.menu_state {
            MenuState::Popup { menu_index } => self.set_menu(
                MenuState::Popup { menu_index: Self::move_menu(menu_index, down) },
            ),
            MenuState::JumpInput { input_num } => {
                let last: u32 = match self.total_page {
                    Some(t) => t,
                    None => PAGE_MAX,
                };
                if down && input_num < last {
                    let s = self.set_menu(MenuState::JumpInput { input_num: input_num + 1 });
                    ReadPage { jump_accel: 0, ..s }
                } else if !down && input_num > 0 {
                    let s = self.set_menu(MenuState::JumpInput { input_num: input_num - 1 });
                    ReadPage { jump_accel: 0, ..s }
                } else {
                    self
                }
            },
            MenuState::BookmarkList { bm_index, deleting } => {
                if down && log_len > 0 && (bm_index as usize) < log_len - 1 && bm_index < u32::MAX {
                    self.move_bookmark(bm_index + 1, deleting)
                } else if !down && bm_index > 0 {
                    self.move_bookmark(bm_index - 1, deleting)
                } else {
                    self
                }
            },
            MenuState::Closed => {
                if self.reading {
                    if down {
                        self.do_change_page(self.page_index as u64 + 1)
                    } else if self.page_index > 0 {
                        self.do_change_page(self.page_index as u64 - 1)
                    } else {
                        self
                    }
                } else {
                    let choose_index: u32 = if books == 0 {
                        self.choose_index
                    } else if down {
                        if self.choose_index < books - 1 {
                            self.choose_index + 1
                        } else {
                            0
                        }
                    } else {
                        if self.choose_index > 0 {
                            self.choose_index - 1
                        } else {
                            books - 1
                        }
                    };
                    ReadPage { choose_index, need_render: true, ..self }
                }
            },
        }
    }

    /// The reader after a key event.
    pub open spec fn handled(self, e: EventType, books: int, log: Seq<u32>) -> (ReadPage, Effects) {
        if e == EventType::KeyLongEnd(3) {
            (self.held_3(), quiet())
        } else if e == EventType::KeyShort(3) {
            self.pressed_3(log)
        } else if e == EventType::KeyLongIng(1) {
            self.holding(books, log.len() as int, true)
        } else if e == EventType::KeyLongIng(2) {
            self.holding(books, log.len() as int, false)
        } else if e == EventType::KeyShort(1) {
            (self.pressed(books, log.len() as int, true), quiet())
        } else if e == EventType::KeyShort(2) {
            (self.pressed(books, log.len() as int, false), quiet())
        } else {
            (self, quiet())
        }
    }

    /// Handles a key event, with so many books listed, and the log of the open one.
    pub fn handle_event(self, e: EventType, books: u32, log: &[u32]) -> (r: (ReadPage, Effects))
        requires
            log@.len() <= u32::MAX,
        ensures
            r == self.handled(e, books as int, log@),
    {
        match e {
            EventType::KeyLongEnd(3) => (self.key_3_held(), no_effects()),
            EventType::KeyShort(3) => self.key_3(log),
            EventType::KeyLongIng(1) => self.key_held(books, log.len(), true),
            EventType::KeyLongIng(2) => self.key_held(books, log.len(), false),
            EventType::KeyShort(1) => (self.key_pressed(books, log.len(), true), no_effects()),
            EventType::KeyShort(2) => (self.key_pressed(books, log.len(), false), no_effects()),
            _ => (self, no_effects()),
        }
    }

    /// How many lines of text a page has.
    pub fn page_lines() -> (n: u32)
        ensures
            n == (400 - 20) / 16 - 1,
    {
        (400 - 20) / 16 - 1
    }
}

/// Whatever key is pressed, the page shown is one of the book, or the end behind the last.
pub proof fn law_page_stays_in_the_book(s: ReadPage, e: EventType, books: int, log: Seq<u32>)
    requires
        s.total_page matches Some(t) ==> s.page_index <= t,
    ensures
        ({
            let r = s.handled(e, books, log).0;
            r.total_page matches Some(t) ==> r.page_index <= t
        }),
{
}

/// The menu goes round: a line down and a line up lead to the same line.
pub proof fn law_menu_goes_round(i: int)
    requires
        0 <= i < MENU_LEN,
    ensures
        ReadPage::menu_moved(ReadPage::menu_moved(i, true), false) == i,
        ReadPage::menu_moved(ReadPage::menu_moved(i, false), true) == i,
        0 <= ReadPage::menu_moved(i, true) < MENU_LEN,
        0 <= ReadPage::menu_moved(i, false) < MENU_LEN,
{
}

/// A page turned and turned back is shown again, unless it is the end of the book.
pub proof fn law_turned_back(s: ReadPage, books: int, log_len: int)
    requires
        s.menu_state is Closed,
        s.reading,
        s.total_page matches Some(t) && s.page_index < t,
    ensures
        s.pressed(books, log_len, true).pressed(books, log_len, false).page_index == s.page_index,
{
}

/// A bookmark that is confirmed leads to its page.
pub proof fn law_bookmark_leads_to_its_page(s: ReadPage, log: Seq<u32>, i: u32)
    requires
        s.menu_state == (MenuState::BookmarkList { bm_index: i, deleting: false }),
        i + 1 < log.len(),
        s.total_page matches Some(t) && log[i + 1] <= t,
    ensures
        s.pressed_3(log).0.page_index == log[i + 1],
        s.pressed_3(log).0.change_page,
        s.pressed_3(log).0.menu_state is Closed,
{
}

/// The longer a key is held, the farther the pages are skipped.
pub proof fn law_steps_accelerate(a: int, b: int)
    requires
        a <= b,
    ensures
        step_at(a) <= step_at(b),
        1 <= step_at(a) <= 100,
{
}

/// A confirmed page is the one that is shown, or the end of the book where it has fewer; the first
/// key turns on and the second back.
pub proof fn law_pages_are_turned_and_asked_for(p: ReadPage, n: u32, total: u32, books: int, log: Seq<u32>)
    requires
        p.total_page == Some(total),
        p.reading,
    ensures
        ({
            let asked = ReadPage { menu_state: MenuState::JumpInput { input_num: n }, ..p };
            let shown = ReadPage { menu_state: MenuState::Closed, ..p };
            let a = asked.handled(EventType::KeyShort(3), books, log).0;
            let on = shown.handled(EventType::KeyShort(1), books, log).0;
            let back = shown.handled(EventType::KeyShort(2), books, log).0;
            &&& n <= total ==> a.page_index == n
            &&& n > total ==> a.page_index == total
            &&& a.change_page && a.menu_state is Closed
            &&& p.page_index < total ==> on.page_index == p.page_index + 1 && on.change_page
            &&& 0 < p.page_index <= total ==> back.page_index == p.page_index - 1 && back.change_page
            &&& p.page_index == 0 ==> back == shown
        }),
{
}

/// A bookmark that is opened leads to its page.
pub proof fn law_opened_bookmark_shows_its_page(p: ReadPage, i: u32, total: u32, books: int, log: Seq<u32>)
    requires
        p.total_page == Some(total),
        p.menu_state == (MenuState::BookmarkList { bm_index: i, deleting: false }),
        i + 1 < log.len(),
        log[i + 1] <= total,
    ensures
        p.handled(EventType::KeyShort(3), books, log).0.page_index == log[i + 1],
        p.handled(EventType::KeyShort(3), books, log).0.menu_state is Closed,
{
}

/// The repeats of a held key are counted as far as the number goes.
pub proof fn law_repeats_are_counted(tick: u32)
    ensures
        tick < u32::MAX ==> ticked(tick) == tick + 1,
        ticked(u32::MAX) == u32::MAX,
        step_at(0) == 1,
{
}

/// In the menu the first key goes down and the second up, round and round, pressed or held; where a
/// page is asked for it goes up and down by pages, ever faster while the key is held, and not past
/// either end.
#[verifier::rlimit(50)]
pub proof fn law_keys_of_the_menus(p: ReadPage, i: u32, n: u32, books: int, log: Seq<u32>)
    requires
        i < 9,
    ensures
        ({
            let m = ReadPage { menu_state: MenuState::Popup { menu_index: i }, ..p };
            let j = ReadPage { menu_state: MenuState::JumpInput { input_num: n }, ..p };
            let down = m.handled(EventType::KeyShort(1), books, log).0.menu_state;
            let up = m.handled(EventType::KeyShort(2), books, log).0.menu_state;
            let held = m.handled(EventType::KeyLongIng(1), books, log).0.menu_state;
            let more = j.handled(EventType::KeyShort(1), books, log).0.menu_state;
            let less = j.handled(EventType::KeyShort(2), books, log).0.menu_state;
            let far = j.handled(EventType::KeyLongIng(1), books, log).0.menu_state;
            let near = j.handled(EventType::KeyLongIng(2), books, log).0.menu_state;
            let last = p.last_page();
            &&& i < 8 ==> down == (MenuState::Popup { menu_index: (i + 1) as u32 })
            &&& i == 8 ==> down == (MenuState::Popup { menu_index: 0 })
            &&& i > 0 ==> up == (MenuState::Popup { menu_index: (i - 1) as u32 })
            &&& i == 0 ==> up == (MenuState::Popup { menu_index: 8 })
            &&& held == down
            &&& n < last <= u32::MAX ==> more == (MenuState::JumpInput { input_num: (n + 1) as u32 })
            &&& n > 0 ==> less == (MenuState::JumpInput { input_num: (n - 1) as u32 })
            &&& p.jump_accel < 5 && n < last <= u32::MAX ==> far == (MenuState::JumpInput {
                input_num: (n + 1) as u32,
            })
            &&& 5 <= p.jump_accel < 10 && n + 5 <= last <= u32::MAX ==> far == (MenuState::JumpInput {
                input_num: (n + 5) as u32,
            })
            &&& 10 <= p.jump_accel < 20 && n >= 10 ==> near == (MenuState::JumpInput {
                input_num: (n - 10) as u32,
            })
            &&& 20 <= p.jump_accel < 35 && n >= 50 ==> near == (MenuState::JumpInput {
                input_num: (n - 50) as u32,
            })
            &&& p.jump_accel >= 35 && n >= 100 ==> near == (MenuState::JumpInput {
                input_num: (n - 100) as u32,
            })
            &&& near->input_num <= n
        }),
{
}

} // verus!
