//! What the reader draws: the list of books, the page, its progress, and the menus over it.
use vstd::prelude::*;
#[allow(unused_imports)]
use vstd::string::*;

use crate::event::EventType;
use crate::draw::{lemma_texts, texts, Anchor, Area, Canvas, DrawOp, Edge, Face, HPos, Ink, Op, VPos};
use crate::pages::read::overlay::{
    area, at, line_anchor, line_ink, line_prefix, mid, mid_anchor, prefix_of, with_bar,
};
use crate::pages::read::session::list_scroll;
use crate::pages::read_page::page::{bookmark_count, MenuState, ReadPage, MENU_LEN};
use crate::text::{dec, dec_text, join, join3};

verus! {

/// The width of the panel as it is held.
pub const VIEW_W: u32 = 300;

/// The height of the panel as it is held.
pub const VIEW_H: u32 = 400;

/// The width of the menus.
pub const MENU_W: u32 = 180;

/// The height of a line of a menu.
pub const LINE_H: u32 = 24;

/// Where the menus begin.
pub const MENU_X: i32 = 60;

/// How many books are listed at most.
pub const LISTED_MAX: usize = 20;

/// How many bookmarks are shown at a time.
pub const BOOKMARK_LINES: u32 = 4;

/// The lines of the menu.
pub open spec fn menu_label(i: int) -> Seq<char> {
    if i == 0 {
        "返回书单"@
    } else if i == 1 {
        "收藏书签"@
    } else if i == 2 {
        "打开书签"@
    } else if i == 3 {
        "删除书签"@
    } else if i == 4 {
        "跳转页码"@
    } else if i == 5 {
        "旋转屏幕"@
    } else if i == 6 {
        "重建索引"@
    } else if i == 7 {
        "睡眠"@
    } else {
        "取消"@
    }
}

fn menu_item(i: u32) -> (s: &'static str)
    ensures
        s@ == menu_label(i as int),
{
    if i == 0 {
        "返回书单"
    } else if i == 1 {
        "收藏书签"
    } else if i == 2 {
        "打开书签"
    } else if i == 3 {
        "删除书签"
    } else if i == 4 {
        "跳转页码"
    } else if i == 5 {
        "旋转屏幕"
    } else if i == 6 {
        "重建索引"
    } else if i == 7 {
        "睡眠"
    } else {
        "取消"
    }
}

/// `c` with a line of a menu at the height `y`.
pub open spec fn menu_line(c: Seq<Op>, text: Seq<char>, selected: bool, y: int) -> Seq<Op> {
    with_bar(c, selected, area(MENU_X + 4, y, MENU_W - 8, LINE_H as int)).push(
        Op::Text(
            line_prefix(selected) + text,
            at(MENU_X + 8, y + 12, VPos::Center, HPos::Left, line_ink(selected)),
        ),
    )
}

/// `c` with the first `n` lines of the menu.
pub open spec fn popup_lines(c: Seq<Op>, sel: int, n: int) -> Seq<Op>
    decreases n,
{
    if n <= 0 {
        c
    } else {
        menu_line(
            popup_lines(c, sel, n - 1),
            menu_label(n - 1),
            n - 1 == sel,
            75 + 8 + (n - 1) * LINE_H,
        )
    }
}

/// The page, no farther than the end.
pub open spec fn shown_page(page: u32, total: u32) -> u32 {
    if page > total {
        total
    } else {
        page
    }
}

/// `c` with the menu, and the number of the page at its foot.
pub open spec fn popup_ops(c: Seq<Op>, s: ReadPage, sel: int) -> Seq<Op> {
    let c = popup_lines(
        c.push(Op::Frame(area(MENU_X as int, 75, MENU_W as int, 250), Edge::Outside, 2)),
        sel,
        MENU_LEN as int,
    );
    match s.total_page {
        Some(total) if total > 0 => c.push(
            Op::Text(
                dec(shown_page(s.page_index, total) as nat) + "/"@ + dec(total as nat),
                at(150, 317, VPos::Bottom, HPos::Center, Ink::Black),
            ),
        ),
        _ => c,
    }
}

/// `c` with the choice of a page.
pub open spec fn jump_ops(c: Seq<Op>, s: ReadPage, n: u32) -> Seq<Op> {
    let total: nat = match s.total_page {
        Some(t) => t as nat,
        None => 0,
    };
    c.push(Op::Frame(area(MENU_X as int, 155, MENU_W as int, 90), Edge::Outside, 2)).push(
        Op::Text("跳转页码"@, mid(150, 177)),
    ).push(Op::Text(dec(n as nat) + " / "@ + dec(total), mid(150, 203))).push(
        Op::Text("1+ 2- 3确认 长按取消"@, mid(150, 227)),
    )
}

/// The first bookmark that is shown.
pub open spec fn first_shown(sel: int) -> int {
    if sel >= BOOKMARK_LINES {
        sel - BOOKMARK_LINES + 1
    } else {
        0
    }
}

/// How many bookmarks are shown.
pub open spec fn shown_count(count: int) -> int {
    if count > BOOKMARK_LINES {
        BOOKMARK_LINES as int
    } else {
        count
    }
}

/// `c` with the first `n` of the bookmarks that are shown.
pub open spec fn bookmark_lines(
    c: Seq<Op>,
    log: Seq<u32>,
    sel: int,
    deleting: bool,
    n: int,
) -> Seq<Op>
    decreases n,
{
    if n <= 0 {
        c
    } else {
        let before = bookmark_lines(c, log, sel, deleting, n - 1);
        let bi = first_shown(sel) + n - 1;
        if bi >= bookmark_count(log.len() as int) {
            before
        } else {
            menu_line(
                before,
                "第"@ + dec(log[bi + 1] as nat) + (if deleting && bi == sel {
                    "页 ×"@
                } else {
                    "页"@
                }),
                bi == sel,
                28 + n * LINE_H,
            )
        }
    }
}

/// `c` with the list of the bookmarks, and the text of the chosen one below.
pub open spec fn bookmark_ops(
    c: Seq<Op>,
    log: Seq<u32>,
    preview: Seq<char>,
    sel: int,
    deleting: bool,
) -> Seq<Op> {
    let count = bookmark_count(log.len() as int);
    let items = shown_count(count) + 1;
    let list_h = items * LINE_H + 16;
    let c = c.push(Op::Frame(area(MENU_X as int, 20, MENU_W as int, list_h), Edge::Outside, 2)).push(
        Op::Text(
            if deleting {
                "删除书签"@
            } else {
                "书签列表"@
            },
            mid(150, 30),
        ),
    );
    let c = if count == 0 {
        c.push(Op::Text("暂无书签"@, mid(150, 64)))
    } else {
        bookmark_lines(c, log, sel, deleting, shown_count(count))
    };
    let c = menu_line(c, "取消"@, sel >= count, 28 + items * LINE_H);
    let py = 20 + list_h + 10;
    let ph = VIEW_H - py - 10;
    if sel < count && preview.len() > 0 {
        c.push(Op::Frame(area(MENU_X as int, py, MENU_W as int, ph), Edge::Outside, 1)).push(
            Op::ClippedText(
                preview,
                at(MENU_X + 6, py + 14, VPos::Top, HPos::Left, Ink::Black),
                area(MENU_X + 4, py + 4, MENU_W - 8, ph - 8),
            ),
        )
    } else {
        c
    }
}

/// `c` with the open menu.
pub open spec fn overlay_ops(c: Seq<Op>, s: ReadPage, log: Seq<u32>, preview: Seq<char>) -> Seq<Op> {
    match s.menu_state {
        MenuState::Popup { menu_index } => popup_ops(c, s, menu_index as int),
        MenuState::JumpInput { input_num } => jump_ops(c, s, input_num),
        MenuState::BookmarkList { bm_index, deleting } => bookmark_ops(
            c,
            log,
            preview,
            bm_index as int,
            deleting,
        ),
        MenuState::Closed => c,
    }
}

/// `c` with a bar at the bottom that shows how far the page is in the book.
pub open spec fn progress_ops(c: Seq<Op>, s: ReadPage) -> Seq<Op> {
    match s.total_page {
        Some(total) if total > 0 => {
            let filled = shown_page(s.page_index, total) * 296 / (total as int);
            let c = c.push(Op::Frame(area(2, 395, 296, 3), Edge::Center, 1));
            if filled > 0 {
                c.push(Op::Fill(area(2, 395, filled, 3), Ink::Black))
            } else {
                c
            }
        },
        _ => c,
    }
}

/// `c` with the progress of the first `n` books beside them.
pub open spec fn percent_ops(c: Seq<Op>, progress: Seq<Seq<char>>, scroll: int, n: int) -> Seq<Op>
    decreases n,
{
    if n <= 0 {
        c
    } else {
        let before = percent_ops(c, progress, scroll, n - 1);
        let y = (n - 1) * 20 - scroll;
        if progress[n - 1].len() == 0 || y < 0 || y + 20 > VIEW_H {
            before
        } else {
            before.push(
                Op::Text(
                    progress[n - 1],
                    Anchor {
                        x: 285,
                        y: (y + 5) as i32,
                        v: VPos::Top,
                        h: HPos::Right,
                        ink: Ink::Black,
                        face: Face::Wqy16,
                    },
                ),
            )
        }
    }
}

/// `c` with the list of the books.
pub open spec fn list_ops(c: Seq<Op>, s: ReadPage, books: Seq<String>, progress: Seq<String>) -> Seq<
    Op,
> {
    let c = c.push(
        Op::Menu(
            texts(books),
            s.choose_index as int,
            area(0, 0, VIEW_W as int, VIEW_H as int),
        ),
    );
    if progress.len() == books.len() {
        let n = progress.len() as int;
        percent_ops(
            c,
            texts(progress),
            list_scroll(n, VIEW_H as int, s.choose_index as int),
            n,
        )
    } else {
        c
    }
}

/// The texts that the reader shows.
pub struct Shown {
    /// The books, where they were listed.
    pub books: Option<Vec<String>>,
    pub progress: Vec<String>,
    /// How much of the index is made, in percent with two decimals.
    pub indexed: String,
    /// The text of the page.
    pub content: String,
    /// The text of the chosen bookmark.
    pub preview: String,
}

/// What the reader draws.
pub open spec fn reader_ops(s: ReadPage, t: Shown, log: Seq<u32>) -> Seq<Op> {
    let c = seq![Op::Clear(Ink::White)];
    let c = if s.indexing {
        c.push(
            Op::Text("正在创建索引，\n 已创建索引进度："@ + t.indexed@ + "%"@, mid(150, 200)),
        )
    } else if !s.reading {
        match t.books {
            Some(books) => list_ops(c, s, books@, t.progress@),
            None => c,
        }
    } else {
        match s.total_page {
            Some(total) => progress_ops(
                c.push(
                    if s.page_index == total {
                        Op::Text("已是最后一页"@, mid(150, 200))
                    } else {
                        Op::Text(t.content@, at(0, 2, VPos::Top, HPos::Left, Ink::Black))
                    },
                ),
                s,
            ),
            None => c,
        }
    };
    if s.reading {
        overlay_ops(c, s, log, t.preview@)
    } else {
        c
    }
}

/// Draws a line of a menu.
fn draw_line(c: &mut Canvas, text: &str, selected: bool, y: i32)
    requires
        0 <= y <= 10000,
    ensures
        final(c)@ == menu_line(old(c)@, text@, selected, y as int),
{
    if selected {
        c.fill(MENU_X + 4, y, MENU_W - 8, LINE_H, Ink::Black);
    }
    c.text(join(prefix_of(selected), text), line_anchor(MENU_X + 8, y + 12, selected));
}

impl ReadPage {
    /// Draws the menu.
    fn draw_popup(self, c: &mut Canvas, sel: u32)
        ensures
            final(c)@ == popup_ops(old(c)@, self, sel as int),
    {
        c.frame(MENU_X, 75, MENU_W, 250, Edge::Outside, 2);
        let ghost framed = c@;
        let mut i: u32 = 0;
        while i < MENU_LEN
            invariant
                i <= MENU_LEN,
                c@ == popup_lines(framed, sel as int, i as int),
            decreases MENU_LEN - i,
        {
            draw_line(c, menu_item(i), i == sel, 83 + (i * LINE_H) as i32);
            i += 1;
        }
        if let Some(total) = self.total_page {
            if total > 0 {
                let current: u32 = if self.page_index > total {
                    total
                } else {
                    self.page_index
                };
                c.text(
                    join3(
                        dec_text(current as u64).as_str(),
                        "/",
                        dec_text(total as u64).as_str(),
                    ),
                    Anchor {
                        x: 150,
                        y: 317,
                        v: VPos::Bottom,
                        h: HPos::Center,
                        ink: Ink::Black,
                        face: Face::Wqy15,
                    },
                );
            }
        }
    }

    /// Draws the choice of a page.
    fn draw_jump(self, c: &mut Canvas, n: u32)
        ensures
            final(c)@ == jump_ops(old(c)@, self, n),
    {
        let total: u32 = match self.total_page {
            Some(t) => t,
            None => 0,
        };
        c.frame(MENU_X, 155, MENU_W, 90, Edge::Outside, 2);
        c.label("跳转页码", mid_anchor(150, 177));
        c.text(
            join3(dec_text(n as u64).as_str(), " / ", dec_text(total as u64).as_str()),
            mid_anchor(150, 203),
        );
        c.label("1+ 2- 3确认 长按取消", mid_anchor(150, 227));
    }

    /// Draws the list of the bookmarks.
    fn draw_bookmarks(self, c: &mut Canvas, log: &[u32], preview: &str, sel: u32, deleting: bool)
        requires
            log@.len() <= 1000,
        ensures
            final(c)@ == bookmark_ops(old(c)@, log@, preview@, sel as int, deleting),
    {
        let count: u32 = if log.len() > 0 {
            log.len() as u32 - 1
        } else {
            0
        };
        let visible: u32 = if count > 4 {
            4
        } else {
            count
        };
        let items: u32 = visible + 1;
        let list_h: u32 = items * LINE_H + 16;
        c.frame(MENU_X, 20, MENU_W, list_h, Edge::Outside, 2);
        if deleting {
            c.label("删除书签", mid_anchor(150, 30));
        } else {
            c.label("书签列表", mid_anchor(150, 30));
        }
        if count == 0 {
            c.label("暂无书签", mid_anchor(150, 64));
        } else {
            let first: u32 = if sel >= 4 {
                sel - 3
            } else {
                0
            };
            let ghost head = c@;
            let mut n: u32 = 0;
            while n < visible
                invariant
                    n <= visible <= 4,
                    log@.len() <= 1000,
                    count == bookmark_count(log@.len() as int),
                    first == first_shown(sel as int),
                    c@ == bookmark_lines(head, log@, sel as int, deleting, n as int),
                decreases visible - n,
            {
                if first < count && n < count - first {
                    let bi: u32 = first + n;
                    let selected = bi == sel;
                    let tail = if deleting && selected {
                        "页 ×"
                    } else {
                        "页"
                    };
                    let page: u32 = log[bi as usize + 1];
                    draw_line(
                        c,
                        join3("第", dec_text(page as u64).as_str(), tail).as_str(),
                        selected,
                        28 + ((n + 1) * LINE_H) as i32,
                    );
                }
                n += 1;
            }
        }
        draw_line(c, "取消", sel >= count, 28 + (items * LINE_H) as i32);
        let py: i32 = 20 + list_h as i32 + 10;
        let ph: u32 = VIEW_H - py as u32 - 10;
        if sel < count && preview.unicode_len() > 0 {
            c.frame(MENU_X, py, MENU_W, ph, Edge::Outside, 1);
            let mut t = String::new();
            t.append(preview);
            assert(t@ =~= preview@);
            c.add_op(
                DrawOp::ClippedText(
                    t,
                    Anchor {
                        x: MENU_X + 6,
                        y: py + 14,
                        v: VPos::Top,
                        h: HPos::Left,
                        ink: Ink::Black,
                        face: Face::Wqy15,
                    },
                    Area { x: MENU_X + 4, y: py + 4, w: MENU_W - 8, h: ph - 8 },
                ),
            );
        }
    }

    /// Draws the open menu over the page.
    pub fn render_menu_overlay(self, c: &mut Canvas, log: &[u32], preview: &str)
        requires
            log@.len() <= 1000,
        ensures
            final(c)@ == overlay_ops(old(c)@, self, log@, preview@),
    {
        match self.menu_state {
            MenuState::Popup { menu_index } => self.draw_popup(c, menu_index),
            MenuState::JumpInput { input_num } => self.draw_jump(c, input_num),
            MenuState::BookmarkList { bm_index, deleting } => self.draw_bookmarks(
                c,
                log,
                preview,
                bm_index,
                deleting,
            ),
            MenuState::Closed => {},
        }
    }

    /// Draws the bar at the bottom.
    pub fn render_progress(self, c: &mut Canvas)
        ensures
            final(c)@ == progress_ops(old(c)@, self),
    {
        if let Some(total) = self.total_page {
            if total > 0 {
                let current: u32 = if self.page_index > total {
                    total
                } else {
                    self.page_index
                };
                c.frame(2, 395, 296, 3, Edge::Center, 1);
                assert(current * 296 / (total as int) <= 296) by (nonlinear_arith)
                    requires
                        0 <= current <= total,
                        total > 0,
                ;
                let filled: u32 = (current as u64 * 296 / total as u64) as u32;
                if filled > 0 {
                    c.fill(2, 395, filled, 3, Ink::Black);
                }
            }
        }
    }

    /// Draws the list of the books.
    fn draw_list(self, c: &mut Canvas, books: &Vec<String>, progress: &Vec<String>)
        requires
            books@.len() <= LISTED_MAX,
            self.choose_index < LISTED_MAX,
        ensures
            final(c)@ == list_ops(old(c)@, self, books@, progress@),
    {
        let mut lines: Vec<String> = Vec::new();
        while lines.len() < books.len()
            invariant
                lines@.len() <= books@.len(),
                forall|k: int| 0 <= k < lines@.len() ==> lines@[k]@ == books@[k]@,
            decreases books@.len() - lines@.len(),
        {
            let b = books[lines.len()].clone();
            lines.push(b);
        }
        proof {
            lemma_texts(lines@);
            lemma_texts(books@);
            lemma_texts(progress@);
            assert(texts(lines@) =~= texts(books@));
        }
        c.add_op(
            DrawOp::Menu(
                lines,
                self.choose_index as usize,
                Area { x: 0, y: 0, w: VIEW_W, h: VIEW_H },
            ),
        );
        let n: usize = progress.len();
        if n != books.len() {
            return;
        }
        let content: u32 = n as u32 * 20;
        let scroll: i32 = if content <= VIEW_H {
            0
        } else {
            let y: u32 = self.choose_index * 20;
            let most: u32 = content - VIEW_H;
            if y <= 200 {
                0
            } else if y >= most + 200 {
                most as i32
            } else {
                (y - 200) as i32
            }
        };
        let ghost head = c@;
        let mut i: usize = 0;
        while i < n
            invariant
                i <= n <= LISTED_MAX,
                n == progress@.len(),
                texts(progress@).len() == n,
                forall|k: int| 0 <= k < n ==> #[trigger] texts(progress@)[k] == progress@[k]@,
                0 <= scroll <= 10000,
                c@ == percent_ops(head, texts(progress@), scroll as int, i as int),
            decreases n - i,
        {
            let label = &progress[i];
            assert(texts(progress@)[i as int] == label@);
            let y: i32 = i as i32 * 20 - scroll;
            if label.as_str().unicode_len() > 0 && !(y < 0 || y + 20 > VIEW_H as i32) {
                c.text(
                    label.clone(),
                    Anchor {
                        x: 285,
                        y: y + 5,
                        v: VPos::Top,
                        h: HPos::Right,
                        ink: Ink::Black,
                        face: Face::Wqy16,
                    },
                );
            }
            i += 1;
        }
    }

    /// Draws the page where that is due.
    pub fn render(self, t: &Shown, log: &[u32]) -> (r: (ReadPage, Option<Canvas>))
        requires
            self.need_render && self.reading ==> log@.len() <= 1000,
            self.need_render && !self.indexing && !self.reading ==> (t.books matches Some(b)
                ==> b@.len() <= LISTED_MAX && self.choose_index < LISTED_MAX),
        ensures
            r.0 == (ReadPage { need_render: false, ..self }),
            match r.1 {
                Some(c) => self.need_render && c@ == reader_ops(self, *t, log@),
                None => !self.need_render,
            },
    {
        if !self.need_render {
            return (self, None);
        }
        let mut c = Canvas::new();
        c.clear(Ink::White);
        assert(c@ =~= seq![Op::Clear(Ink::White)]);
        if self.indexing {
            c.text(
                join3("正在创建索引，\n 已创建索引进度：", t.indexed.as_str(), "%"),
                mid_anchor(150, 200),
            );
        } else if !self.reading {
            if let Some(books) = &t.books {
                self.draw_list(&mut c, books, &t.progress);
            }
        } else if let Some(total) = self.total_page {
            if self.page_index == total {
                c.label("已是最后一页", mid_anchor(150, 200));
            } else {
                c.label(
                    t.content.as_str(),
                    Anchor {
                        x: 0,
                        y: 2,
                        v: VPos::Top,
                        h: HPos::Left,
                        ink: Ink::Black,
                        face: Face::Wqy15,
                    },
                );
            }
            self.render_progress(&mut c);
        }
        if self.reading {
            self.render_menu_overlay(&mut c, log, t.preview.as_str());
        }
        (ReadPage { need_render: false, ..self }, Some(c))
    }
}

/// The chosen bookmark is among those that are shown.
pub proof fn law_chosen_bookmark_is_shown(count: int, sel: int)
    requires
        0 <= sel < count,
    ensures
        first_shown(sel) <= sel < first_shown(sel) + shown_count(count),
{
}

/// The lines of the menu do what they say: leave the book, keep a bookmark, list the bookmarks to
/// open or to delete, ask for a page, turn the panel, make the index anew, sleep, or nothing. They
/// stand in this order.
#[verifier::rlimit(50)]
pub proof fn law_menu_lines_do_what_they_say(p: ReadPage, i: u32, books: int, log: Seq<u32>)
    requires
        p.menu_state == (MenuState::Popup { menu_index: i }),
        i < 9,
    ensures
        ({
            let t = menu_label(i as int)[0];
            let (a, e) = p.handled(EventType::KeyShort(3), books, log);
            &&& t == '返' <==> i == 0
            &&& t == '收' <==> i == 1
            &&& t == '打' <==> i == 2
            &&& t == '删' <==> i == 3
            &&& t == '跳' <==> i == 4
            &&& t == '旋' <==> i == 5
            &&& t == '重' <==> i == 6
            &&& t == '睡' <==> i == 7
            &&& t == '取' <==> i == 8
            &&& t == '返' ==> !a.reading && a.kept_book is None && a.menu_state is Closed
            &&& t != '返' ==> a.reading == p.reading && a.kept_book == p.kept_book
            &&& a.save_bookmark_flag == (p.save_bookmark_flag || t == '收')
            &&& t == '打' ==> a.menu_state == (MenuState::BookmarkList { bm_index: 0, deleting: false })
                && a.need_load_preview
            &&& t == '删' ==> a.menu_state == (MenuState::BookmarkList { bm_index: 0, deleting: true })
                && e.clear_preview
            &&& t == '跳' ==> a.menu_state == (MenuState::JumpInput { input_num: p.page_index })
            &&& e.rotate <==> t == '旋'
            &&& a.flipped == (if t == '旋' {
                !p.flipped
            } else {
                p.flipped
            })
            &&& a.force_indexing == (p.force_indexing || t == '重')
            &&& e.sleep <==> t == '睡'
            &&& t == '睡' ==> a == p
            &&& t == '取' ==> a == (ReadPage { menu_state: MenuState::Closed, need_render: true, ..p })
            &&& a.page_index == p.page_index
        }),
{
    reveal_strlit("返回书单");
    reveal_strlit("收藏书签");
    reveal_strlit("打开书签");
    reveal_strlit("删除书签");
    reveal_strlit("跳转页码");
    reveal_strlit("旋转屏幕");
    reveal_strlit("重建索引");
    reveal_strlit("睡眠");
    reveal_strlit("取消");
}

/// As much of the bar is black as of the book was read: none at the beginning, all at the end.
pub proof fn law_bar_shows_what_was_read(c: Seq<Op>, s: ReadPage, total: u32)
    requires
        s.total_page == Some(total),
        total > 0,
        s.page_index <= total,
    ensures
        ({
            let r = progress_ops(c, s);
            let n = c.len() as int;
            &&& r[n] matches Op::Frame(bar, _, _) && {
                &&& bar.w == 296
                &&& r.len() == n + 1 ==> s.page_index * 296 < total
                &&& r.len() == n + 2 ==> (r[n + 1] matches Op::Fill(a, _) && a.x == bar.x && a.w * total
                    <= s.page_index * 296 < (a.w + 1) * total)
                &&& r.len() == n + 1 || r.len() == n + 2
            }
        }),
{
    let f = s.page_index * 296 / (total as int);
    assert(f * total <= s.page_index * 296 < (f + 1) * total) by (nonlinear_arith)
        requires
            total > 0,
            f == s.page_index * 296 / (total as int),
    ;
    assert(0 <= f <= 296) by (nonlinear_arith)
        requires
            f * total <= s.page_index * 296 < (f + 1) * total,
            0 <= s.page_index <= total,
            total > 0,
    ;
    if f == 0 {
        assert((f + 1) * total == total) by (nonlinear_arith)
            requires
                f == 0,
        ;
    }
    assert(shown_page(s.page_index, total) == s.page_index);
}

} // verus!
