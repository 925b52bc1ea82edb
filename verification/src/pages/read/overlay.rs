//! The menus and the progress bar that are drawn over an open book.
use vstd::prelude::*;
#[allow(unused_imports)]
use vstd::string::*;

use crate::bounded::{log_slice, LOG_VEC_MAX};
use crate::draw::{lemma_texts, Anchor, Area, Canvas, Edge, Face, HPos, Ink, Op, VPos};
use crate::draw::DrawOp;
use crate::event::EventType;
use crate::pages::read::page::{
    FONTS_MAX, MENU_COUNT, MenuState, ReadPage, ReadState, ReadView, after, outcome, percent,
    percent_of,
};
use crate::text::{
    dec, dec_text, join, join3, law_numbers_read_back, num_of,
};

verus! {

/// The height of a menu line.
pub const ITEM_H: u32 = 24;

/// The space between a menu's edge and its lines.
pub const PADDING: u32 = 8;

/// The width of the menus on a panel of width `vw`.
pub open spec fn menu_width(vw: int) -> int {
    if vw < 200 {
        vw - 16
    } else {
        180
    }
}

/// The height of the popup menu.
pub open spec fn popup_height() -> int {
    MENU_COUNT * ITEM_H + 18 + PADDING * 2
}

/// The menu `m` has room on a panel of this size.
pub open spec fn has_room(m: MenuState, vw: int, vh: int) -> bool {
    &&& vw <= 10000
    &&& vh <= 10000
    &&& match m {
        MenuState::Closed => true,
        MenuState::Popup { .. } => vw >= 24 && vh >= popup_height(),
        MenuState::JumpInput { .. } => vw >= 40 && vh >= 100,
        MenuState::Layout { .. } => vw >= 16 && vh >= 120,
        MenuState::FontList { .. } => vw >= 24 && vh >= 20,
        MenuState::BookmarkList { .. } => vw >= 30 && vh >= 25,
    }
}

/// The popup menu's line `i`.
pub open spec fn menu_label(i: int) -> Seq<char> {
    if i == 0 {
        "返回书单"@
    } else if i == 1 {
        "收藏书签"@
    } else if i == 2 {
        "打开书签"@
    } else if i == 3 {
        "删除书签"@
    } else if i == 4 {
        "跳转进度"@
    } else if i == 5 {
        "排版"@
    } else if i == 6 {
        "字体"@
    } else if i == 7 {
        "旋转屏幕"@
    } else if i == 8 {
        "睡眠"@
    } else {
        "取消"@
    }
}

/// The popup menu's line `i`.
fn menu_item(i: u32) -> (s: &'static str)
    ensures
        s@ == menu_label(i as int),
{
    if i == 0 {
        "返回书单"
    } else if i == 1 {
        "收藏书签"
    } else if i == 2 {
        "打开书签"
    } else if i == 3 {
        "删除书签"
    } else if i == 4 {
        "跳转进度"
    } else if i == 5 {
        "排版"
    } else if i == 6 {
        "字体"
    } else if i == 7 {
        "旋转屏幕"
    } else if i == 8 {
        "睡眠"
    } else {
        "取消"
    }
}

/// A text in the menus' face.
pub open spec fn at(x: int, y: int, v: VPos, h: HPos, ink: Ink) -> Anchor {
    Anchor { x: x as i32, y: y as i32, v, h, ink, face: Face::Wqy15 }
}

/// A black text around the point.
pub open spec fn mid(x: int, y: int) -> Anchor {
    at(x, y, VPos::Center, HPos::Center, Ink::Black)
}

/// A rectangle.
pub open spec fn area(x: int, y: int, w: int, h: int) -> Area {
    Area { x: x as i32, y: y as i32, w: w as u32, h: h as u32 }
}

pub(crate) fn mid_anchor(x: i32, y: i32) -> (a: Anchor)
    ensures
        a == mid(x as int, y as int),
{
    Anchor { x, y, v: VPos::Center, h: HPos::Center, ink: Ink::Black, face: Face::Wqy15 }
}

/// The colour of a line's text.
pub open spec fn line_ink(selected: bool) -> Ink {
    if selected {
        Ink::White
    } else {
        Ink::Black
    }
}

/// The mark before a line.
pub open spec fn line_prefix(selected: bool) -> Seq<char> {
    if selected {
        "> "@
    } else {
        "  "@
    }
}

pub(crate) fn prefix_of(selected: bool) -> (s: &'static str)
    ensures
        s@ == line_prefix(selected),
{
    if selected {
        "> "
    } else {
        "  "
    }
}

pub(crate) fn line_anchor(x: i32, y: i32, selected: bool) -> (a: Anchor)
    ensures
        a == at(x as int, y as int, VPos::Center, HPos::Left, line_ink(selected)),
{
    Anchor {
        x,
        y,
        v: VPos::Center,
        h: HPos::Left,
        ink: if selected {
            Ink::White
        } else {
            Ink::Black
        },
        face: Face::Wqy15,
    }
}

/// `c` with the bar behind a selected line.
pub open spec fn with_bar(c: Seq<Op>, selected: bool, a: Area) -> Seq<Op> {
    if selected {
        c.push(Op::Fill(a, Ink::Black))
    } else {
        c
    }
}

/// `c` with the first `n` lines of the popup menu, whose line `sel` is selected.
pub open spec fn popup_lines(c: Seq<Op>, sel: int, x: int, y: int, w: int, n: int) -> Seq<Op>
    decreases n,
{
    if n <= 0 {
        c
    } else {
        let before = popup_lines(c, sel, x, y, w, n - 1);
        let i = n - 1;
        let item_y = y + PADDING + i * ITEM_H;
        with_bar(before, i == sel, area(x + 4, item_y, w - 8, ITEM_H as int)).push(
            Op::Text(
                line_prefix(i == sel) + menu_label(i),
                at(x + PADDING, item_y + 12, VPos::Center, HPos::Left, line_ink(i == sel)),
            ),
        )
    }
}

/// `c` with the popup menu.
pub open spec fn popup_ops(c: Seq<Op>, v: ReadView, sel: int, vw: int, vh: int) -> Seq<Op> {
    let w = menu_width(vw);
    let h = popup_height();
    let x = (vw - w) / 2;
    let y = (vh - h) / 2;
    let framed = c.push(Op::Frame(area(x, y, w, h), Edge::Outside, 2));
    let lines = popup_lines(framed, sel, x, y, w, MENU_COUNT as int);
    let s = v.state;
    if s.ttf_file_len > 0 {
        lines.push(
            Op::Text(
                dec(percent(s.ttf_offset as int, s.ttf_file_len as int) as nat) + "%"@,
                at(x + w / 2, y + h - PADDING, VPos::Bottom, HPos::Center, Ink::Black),
            ),
        )
    } else {
        lines
    }
}

/// `c` with the choice of a percentage to jump to.
pub open spec fn jump_ops(c: Seq<Op>, pct: int, vw: int, vh: int) -> Seq<Op> {
    let w = menu_width(vw);
    let x = (vw - w) / 2;
    let y = (vh - 100) / 2;
    let cx = vw / 2;
    let bar_w = w - 24;
    let filled = bar_w * pct / 100;
    let bar = c.push(Op::Frame(area(x, y, w, 100), Edge::Outside, 2)).push(
        Op::Text("跳转进度"@, mid(cx, y + 22)),
    ).push(Op::Text(dec(pct as nat) + "%"@, mid(cx, y + 50))).push(
        Op::Frame(area(x + 12, y + 70, bar_w, 4), Edge::Center, 1),
    );
    if filled > 0 {
        bar.push(Op::Fill(area(x + 12, y + 70, filled, 4), Ink::Black))
    } else {
        bar
    }
}

/// `c` with the choice of the text size and the line spacing.
pub open spec fn layout_ops(c: Seq<Op>, v: ReadView, vw: int, vh: int) -> Seq<Op> {
    let w = menu_width(vw);
    let x = (vw - w) / 2;
    let y = (vh - 120) / 2;
    let cx = x + w / 2;
    c.push(Op::Frame(area(x, y, w, 120), Edge::Outside, 2)).push(
        Op::Text("排版设置"@, mid(cx, y + 18)),
    ).push(Op::Text("字号: "@ + dec(v.state.ttf_px as nat), mid(cx, y + 48))).push(
        Op::Text("行距: "@ + dec(v.state.line_gap as nat), mid(cx, y + 74)),
    ).push(Op::Text("1/2字号 长按行距 3保存"@, mid(cx, y + 106)))
}

/// How many lines of height `item` fit into a height of `h`; at least one.
pub open spec fn visible_lines(h: int, item: int) -> int {
    if h / item >= 1 {
        h / item
    } else {
        1
    }
}

/// The larger of `h` and nought.
pub open spec fn at_least_0(h: int) -> int {
    if h > 0 {
        h
    } else {
        0
    }
}

/// The first line shown of a list of `count` fonts.
pub open spec fn font_scroll(count: int, visible: int, sel: int) -> int {
    if count <= visible {
        0
    } else if sel >= count {
        count - visible
    } else if sel >= visible {
        sel - visible + 1
    } else {
        0
    }
}

/// `c` with `n` lines of the list of fonts, from the line `first` on.
pub open spec fn font_lines(
    c: Seq<Op>,
    v: ReadView,
    sel: int,
    x: int,
    top: int,
    w: int,
    first: int,
    n: int,
) -> Seq<Op>
    decreases n,
{
    if n <= 0 {
        c
    } else {
        let before = font_lines(c, v, sel, x, top, w, first, n - 1);
        let fi = first + n - 1;
        let y = top + (n - 1) * 22;
        if fi >= v.font_list.len() {
            before
        } else {
            with_bar(before, fi == sel, area(x + 3, y, w - 6, 22)).push(
                Op::Text(
                    line_prefix(fi == sel) + v.font_list[fi] + (if v.font_list[fi] == v.font_name {
                        " ✓"@
                    } else {
                        ""@
                    }),
                    at(x + PADDING, y + 11, VPos::Center, HPos::Left, line_ink(fi == sel)),
                ),
            )
        }
    }
}

/// `c` with the list of fonts.
pub open spec fn font_ops(c: Seq<Op>, v: ReadView, sel: int, vw: int, vh: int) -> Seq<Op> {
    let w = menu_width(vw);
    let h = vh - 20;
    let x = (vw - w) / 2;
    let cx = x + w / 2;
    let top: int = 42;
    let bottom = 10 + h - 24;
    let visible = visible_lines(at_least_0(bottom - top), 22);
    let count = v.font_list.len() as int;
    let head = c.push(Op::Frame(area(x, 10, w, h), Edge::Outside, 2)).push(
        Op::Text("选择字体"@, mid(cx, 24)),
    ).push(Op::Fill(area(x + 4, 38, w - 8, 1), Ink::Black));
    let none = if count == 0 {
        head.push(Op::Text("未找到字体"@, mid(cx, (top + bottom) / 2)))
    } else {
        head
    };
    font_lines(none, v, sel, x, top, w, font_scroll(count, visible, sel), visible).push(
        Op::Text("1/2选择 3确认 长按取消"@, mid(cx, 10 + h - 12)),
    )
}

/// The first line shown of a list of `count` bookmarks.
pub open spec fn bookmark_scroll(count: int, visible: int, sel: int) -> int {
    if count <= visible {
        0
    } else if sel >= count || sel > count - visible {
        count - visible
    } else if sel >= visible {
        sel - visible + 1
    } else {
        0
    }
}

/// The bookmarks of the open book.
pub open spec fn bookmarks(v: ReadView) -> Seq<u32> {
    match v.log_vec {
        Some(l) => if l.len() > 0 {
            l.skip(1)
        } else {
            seq![]
        },
        None => seq![],
    }
}

/// How far into the book a bookmark lies.
pub open spec fn bookmark_percent(off: int, len: int) -> int {
    if len > 0 {
        off * 100 / len
    } else {
        0
    }
}

/// `c` with `n` lines of the list of bookmarks, from the line `first` on.
pub open spec fn bookmark_lines(
    c: Seq<Op>,
    v: ReadView,
    sel: int,
    deleting: bool,
    x: int,
    top: int,
    w: int,
    first: int,
    n: int,
) -> Seq<Op>
    decreases n,
{
    if n <= 0 {
        c
    } else {
        let before = bookmark_lines(c, v, sel, deleting, x, top, w, first, n - 1);
        let bi = first + n - 1;
        let y = top + (n - 1) * ITEM_H;
        if bi >= bookmarks(v).len() {
            before
        } else {
            let pct = bookmark_percent(bookmarks(v)[bi] as int, v.state.ttf_file_len as int);
            with_bar(before, bi == sel, area(x + 3, y, w - 14, ITEM_H as int)).push(
                Op::Text(
                    line_prefix(bi == sel) + dec(pct as nat) + (if deleting && bi == sel {
                        "% ×"@
                    } else {
                        "%"@
                    }),
                    at(x + PADDING, y + 12, VPos::Center, HPos::Left, line_ink(bi == sel)),
                ),
            )
        }
    }
}

/// `c` with the scroll bar beside `count` bookmarks of which `visible` are shown.
pub open spec fn scrollbar_ops(
    c: Seq<Op>,
    x: int,
    top: int,
    h: int,
    count: int,
    visible: int,
    first: int,
) -> Seq<Op> {
    if count > visible && h > 0 {
        let share = h * visible / count;
        let at_least = if share > 6 {
            share
        } else {
            6
        };
        let thumb_h = if at_least < h {
            at_least
        } else {
            h
        };
        c.push(Op::Frame(area(x, top, 3, h), Edge::Center, 1)).push(
            Op::Fill(area(x, top + h * first / count, 3, thumb_h), Ink::Black),
        )
    } else {
        c
    }
}

/// Where the parts of the list of bookmarks stand on a panel of height `vh`: the height of the
/// list, the top of the line to cancel, and the top and height of the lines above it.
pub open spec fn bookmark_frame(vh: int) -> (int, int, int, int) {
    let list_h = (vh - 16) / 3;
    let cancel_y = 8 + list_h - 4 - ITEM_H;
    let top: int = 32;
    (list_h, cancel_y, top, at_least_0(cancel_y - 2 - top))
}

/// `c` with the list of bookmarks, without the preview.
pub open spec fn bookmark_list_ops(
    c: Seq<Op>,
    v: ReadView,
    sel: int,
    deleting: bool,
    vw: int,
    vh: int,
) -> Seq<Op> {
    let w = menu_width(vw);
    let x = (vw - w) / 2;
    let (list_h, cancel_y, top, scroll_h) = bookmark_frame(vh);
    let count = bookmarks(v).len() as int;
    let visible = visible_lines(scroll_h, ITEM_H as int);
    let first = bookmark_scroll(count, visible, sel);
    let cancel = sel >= count;
    let head = c.push(Op::Frame(area(x, 8, w, list_h), Edge::Inside, 2)).push(
        Op::Text(
            if deleting {
                "删除书签"@
            } else {
                "书签列表"@
            },
            mid(x + w / 2, 21),
        ),
    ).push(Op::Fill(area(x + 4, 30, w - 8, 1), Ink::Black));
    let foot = with_bar(head, cancel, area(x + 3, cancel_y, w - 6, ITEM_H as int)).push(
        Op::Text(
            line_prefix(cancel) + "取消"@,
            at(x + PADDING, cancel_y + 12, VPos::Center, HPos::Left, line_ink(cancel)),
        ),
    );
    let lines = bookmark_lines(foot, v, sel, deleting, x, top, w, first, visible);
    let barred = scrollbar_ops(lines, x + w - 7, top, scroll_h, count, visible, first);
    if count == 0 {
        barred.push(Op::Text("暂无书签"@, mid(x + w / 2, half(top + cancel_y - 2))))
    } else {
        barred
    }
}

/// Half of `n`, rounded towards nought.
pub open spec fn half(n: int) -> int {
    if n >= 0 {
        n / 2
    } else {
        -((-n) / 2)
    }
}

/// `c` with the list of bookmarks and the preview of the selected one.
pub open spec fn bookmark_ops(
    c: Seq<Op>,
    v: ReadView,
    sel: int,
    deleting: bool,
    vw: int,
    vh: int,
) -> Seq<Op> {
    let listed = bookmark_list_ops(c, v, sel, deleting, vw, vh);
    let list_h = bookmark_frame(vh).0;
    let py = 8 + list_h + 6;
    let ph = vh - 16 - list_h - 6;
    let framed = listed.push(Op::Frame(area(0, py, vw, ph), Edge::Inside, 1));
    if sel < bookmarks(v).len() && v.bookmark_preview.len() > 0 && ph > 12 {
        framed.push(
            Op::ClippedText(
                v.bookmark_preview,
                at(6, py + 14, VPos::Top, HPos::Left, Ink::Black),
                area(4, py + 4, vw - 8, ph - 8),
            ),
        )
    } else {
        framed
    }
}

/// `c` with the open menu.
pub open spec fn overlay_ops(c: Seq<Op>, v: ReadView, vw: int, vh: int) -> Seq<Op> {
    match v.state.menu_state {
        MenuState::Closed => c,
        MenuState::Popup { menu_index } => popup_ops(c, v, menu_index as int, vw, vh),
        MenuState::JumpInput { input_pct } => jump_ops(c, input_pct as int, vw, vh),
        MenuState::Layout { .. } => layout_ops(c, v, vw, vh),
        MenuState::FontList { font_index } => font_ops(c, v, font_index as int, vw, vh),
        MenuState::BookmarkList { bm_index, deleting } => bookmark_ops(
            c,
            v,
            bm_index as int,
            deleting,
            vw,
            vh,
        ),
    }
}

/// `c` with the progress bar at the bottom of the page.
pub open spec fn progress_ops(c: Seq<Op>, v: ReadView, vw: int, vh: int) -> Seq<Op> {
    let len = v.state.ttf_file_len as int;
    let at = if v.state.ttf_offset <= len {
        v.state.ttf_offset as int
    } else {
        len
    };
    if len == 0 {
        c
    } else {
        let full = vw - 4;
        let filled = at * full / len;
        let bar = c.push(Op::Frame(area(2, vh - 5, full, 3), Edge::Center, 1));
        if filled > 0 {
            bar.push(Op::Fill(area(2, vh - 5, filled, 3), Ink::Black))
        } else {
            bar
        }
    }
}

/// The width of the menus.
fn width_of_menu(vw: u32) -> (w: u32)
    requires
        vw >= 16,
    ensures
        w == menu_width(vw as int),
        w <= vw,
{
    if vw < 200 {
        vw - 16
    } else {
        180
    }
}

impl ReadPage {
    /// Draws the popup menu.
    fn draw_popup(&self, c: &mut Canvas, sel: u32, vw: u32, vh: u32)
        requires
            has_room(MenuState::Popup { menu_index: sel }, vw as int, vh as int),
        ensures
            final(c)@ == popup_ops(old(c)@, self@, sel as int, vw as int, vh as int),
    {
        let w: u32 = width_of_menu(vw);
        let h: u32 = MENU_COUNT * ITEM_H + 18 + PADDING * 2;
        let x: i32 = ((vw - w) / 2) as i32;
        let y: i32 = ((vh - h) / 2) as i32;
        c.frame(x, y, w, h, Edge::Outside, 2);
        let ghost framed = c@;
        let mut i: u32 = 0;
        while i < MENU_COUNT
            invariant
                i <= MENU_COUNT,
                8 <= w <= vw <= 10000,
                0 <= x <= 10000,
                0 <= y <= 10000,
                c@ == popup_lines(framed, sel as int, x as int, y as int, w as int, i as int),
            decreases MENU_COUNT - i,
        {
            let item_y: i32 = y + PADDING as i32 + (i * ITEM_H) as i32;
            let selected: bool = i == sel;
            if selected {
                c.fill(x + 4, item_y, w - 8, ITEM_H, Ink::Black);
            }
            c.text(
                join(prefix_of(selected), menu_item(i)),
                line_anchor(x + PADDING as i32, item_y + 12, selected),
            );
            i += 1;
        }
        if self.state.ttf_file_len > 0 {
            let pct: u32 = percent_of(self.state.ttf_offset, self.state.ttf_file_len);
            c.text(
                join(dec_text(pct as u64).as_str(), "%"),
                Anchor {
                    x: x + (w / 2) as i32,
                    y: y + h as i32 - PADDING as i32,
                    v: VPos::Bottom,
                    h: HPos::Center,
                    ink: Ink::Black,
                    face: Face::Wqy15,
                },
            );
        }
    }

    /// Draws the choice of a percentage to jump to.
    fn draw_jump(&self, c: &mut Canvas, pct: u8, vw: u32, vh: u32)
        requires
            has_room(MenuState::JumpInput { input_pct: pct }, vw as int, vh as int),
        ensures
            final(c)@ == jump_ops(old(c)@, pct as int, vw as int, vh as int),
    {
        let w: u32 = width_of_menu(vw);
        let x: i32 = ((vw - w) / 2) as i32;
        let y: i32 = ((vh - 100) / 2) as i32;
        let cx: i32 = (vw / 2) as i32;
        c.frame(x, y, w, 100, Edge::Outside, 2);
        c.label("跳转进度", mid_anchor(cx, y + 22));
        c.text(join(dec_text(pct as u64).as_str(), "%"), mid_anchor(cx, y + 50));
        let bar_w: u32 = w - 24;
        c.frame(x + 12, y + 70, bar_w, 4, Edge::Center, 1);
        assert(0 <= bar_w * pct <= 10000 * 255) by (nonlinear_arith)
            requires
                0 <= bar_w <= 10000,
                0 <= pct <= 255,
        ;
        let filled: u32 = bar_w * pct as u32 / 100;
        if filled > 0 {
            c.fill(x + 12, y + 70, filled, 4, Ink::Black);
        }
    }

    /// Draws the choice of the text size and the line spacing.
    fn draw_layout(&self, c: &mut Canvas, vw: u32, vh: u32)
        requires
            self@.valid(),
            16 <= vw <= 10000,
            120 <= vh <= 10000,
        ensures
            final(c)@ == layout_ops(old(c)@, self@, vw as int, vh as int),
    {
        let w: u32 = width_of_menu(vw);
        let x: i32 = ((vw - w) / 2) as i32;
        let y: i32 = ((vh - 120) / 2) as i32;
        let cx: i32 = x + (w / 2) as i32;
        c.frame(x, y, w, 120, Edge::Outside, 2);
        c.label("排版设置", mid_anchor(cx, y + 18));
        c.text(join("字号: ", dec_text(self.state.ttf_px as u64).as_str()), mid_anchor(cx, y + 48));
        c.text(
            join("行距: ", dec_text(self.state.line_gap as u64).as_str()),
            mid_anchor(cx, y + 74),
        );
        c.label("1/2字号 长按行距 3保存", mid_anchor(cx, y + 106));
    }

    /// Draws the list of fonts.
    fn draw_fonts(&self, c: &mut Canvas, sel: u32, vw: u32, vh: u32)
        requires
            self@.valid(),
            sel < FONTS_MAX,
            has_room(MenuState::FontList { font_index: sel }, vw as int, vh as int),
        ensures
            final(c)@ == font_ops(old(c)@, self@, sel as int, vw as int, vh as int),
    {
        proof {
            lemma_texts(self.font_list@);
        }
        let w: u32 = width_of_menu(vw);
        let h: u32 = vh - 20;
        let x: i32 = ((vw - w) / 2) as i32;
        let cx: i32 = x + (w / 2) as i32;
        c.frame(x, 10, w, h, Edge::Outside, 2);
        c.label("选择字体", mid_anchor(cx, 24));
        c.fill(x + 4, 38, w - 8, 1, Ink::Black);
        let top: i32 = 42;
        let bottom: i32 = 10 + h as i32 - 24;
        let list_h: i32 = if bottom - top > 0 {
            bottom - top
        } else {
            0
        };
        let visible: u32 = if list_h / 22 >= 1 {
            (list_h / 22) as u32
        } else {
            1
        };
        let count: u32 = self.font_list.len() as u32;
        let first: u32 = if count <= visible {
            0
        } else if sel >= count {
            count - visible
        } else if sel >= visible {
            sel - visible + 1
        } else {
            0
        };
        if count == 0 {
            c.label("未找到字体", mid_anchor(cx, (top + bottom) / 2));
        }
        let ghost head = c@;
        let mut vi: u32 = 0;
        while vi < visible
            invariant
                vi <= visible <= 10000,
                first <= FONTS_MAX,
                8 <= w <= vw <= 10000,
                0 <= x <= 10000,
                top == 42,
                count == self.font_list@.len(),
                self@.font_list.len() == count,
                forall|i: int|
                    0 <= i < count ==> #[trigger] self@.font_list[i] == self.font_list@[i]@,
                c@ == font_lines(
                    head,
                    self@,
                    sel as int,
                    x as int,
                    top as int,
                    w as int,
                    first as int,
                    vi as int,
                ),
            decreases visible - vi,
        {
            let fi: u32 = first + vi;
            if fi < count {
                let name = &self.font_list[fi as usize];
                let y: i32 = top + vi as i32 * 22;
                let selected: bool = fi == sel;
                if selected {
                    c.fill(x + 3, y, w - 6, 22, Ink::Black);
                }
                let mark: &str = if *name == self.font_name {
                    " ✓"
                } else {
                    ""
                };
                assert(self@.font_list[fi as int] == name@);
                c.text(
                    join3(prefix_of(selected), name.as_str(), mark),
                    line_anchor(x + PADDING as i32, y + 11, selected),
                );
            }
            vi += 1;
        }
        c.label("1/2选择 3确认 长按取消", mid_anchor(cx, 10 + h as i32 - 12));
    }

    /// Draws the scroll bar beside the bookmarks.
    fn draw_scrollbar(c: &mut Canvas, x: i32, top: i32, h: i32, count: u32, visible: u32, first: u32)
        requires
            -10000 <= x <= 10000,
            top == 32,
            0 <= h <= 10000,
            count <= LOG_VEC_MAX,
            visible <= 10000,
            first <= count,
        ensures
            final(c)@ == scrollbar_ops(
                old(c)@,
                x as int,
                top as int,
                h as int,
                count as int,
                visible as int,
                first as int,
            ),
    {
        if count > visible && h > 0 {
            c.frame(x, top, 3, h as u32, Edge::Center, 1);
            assert(0 <= h * visible <= 10000 * 10000) by (nonlinear_arith)
                requires
                    0 <= h <= 10000,
                    0 <= visible <= 10000,
            ;
            assert(0 <= h * first <= 10000 * 10000) by (nonlinear_arith)
                requires
                    0 <= h <= 10000,
                    0 <= first <= 10000,
            ;
            assert(h * first / (count as int) <= h) by (nonlinear_arith)
                requires
                    0 <= h,
                    0 <= first <= count,
                    count > 0,
            ;
            let share: u32 = h as u32 * visible / count;
            let at_least: u32 = if share > 6 {
                share
            } else {
                6
            };
            let thumb_h: u32 = if at_least < h as u32 {
                at_least
            } else {
                h as u32
            };
            c.fill(x, top + (h as u32 * first / count) as i32, 3, thumb_h, Ink::Black);
        }
    }

    /// Draws the lines of the list of bookmarks.
    fn draw_bookmark_lines(
        &self,
        c: &mut Canvas,
        log: &[u32],
        sel: u32,
        deleting: bool,
        x: i32,
        w: u32,
        first: u32,
        visible: u32,
    )
        requires
            log@ == bookmarks(self@),
            log@.len() <= LOG_VEC_MAX,
            0 <= x <= 10000,
            14 <= w <= 10000,
            first <= LOG_VEC_MAX,
            visible <= 10000,
        ensures
            final(c)@ == bookmark_lines(
                old(c)@,
                self@,
                sel as int,
                deleting,
                x as int,
                32,
                w as int,
                first as int,
                visible as int,
            ),
    {
        let mut vi: u32 = 0;
        let ghost head = c@;
        let top: i32 = 32;
        while vi < visible
            invariant
                vi <= visible <= 10000,
                first <= LOG_VEC_MAX,
                0 <= x <= 10000,
                14 <= w <= 10000,
                top == 32,
                log@ == bookmarks(self@),
                log@.len() <= LOG_VEC_MAX,
                c@ == bookmark_lines(
                    head,
                    self@,
                    sel as int,
                    deleting,
                    x as int,
                    32,
                    w as int,
                    first as int,
                    vi as int,
                ),
            decreases visible - vi,
        {
            let bi: u32 = first + vi;
            if (bi as usize) < log.len() {
                let off: u32 = log[bi as usize];
                let y: i32 = top + vi as i32 * 24;
                let selected: bool = bi == sel;
                if selected {
                    c.fill(x + 3, y, w - 14, ITEM_H, Ink::Black);
                }
                let len: u32 = self.state.ttf_file_len;
                let pct: u64 = if len > 0 {
                    off as u64 * 100 / len as u64
                } else {
                    0
                };
                let tail: &str = if deleting && selected {
                    "% ×"
                } else {
                    "%"
                };
                c.text(
                    join3(prefix_of(selected), dec_text(pct).as_str(), tail),
                    line_anchor(x + PADDING as i32, y + 12, selected),
                );
            }
            vi += 1;
        }
    }

    /// The bookmarks of the open book.
    fn bookmark_slice(&self) -> (log: Vec<u32>)
        ensures
            log@ == bookmarks(self@),
            log@.len() < LOG_VEC_MAX,
    {
        let mut out: Vec<u32> = Vec::new();
        if let Some(lv) = &self.log_vec {
            let all = log_slice(lv);
            let mut i: usize = 1;
            while i < all.len()
                invariant
                    1 <= i,
                    all@.len() <= LOG_VEC_MAX,
                    all@.len() > 0 ==> i <= all@.len(),
                    all@.len() == 0 ==> i == 1,
                    out@.len() == i - 1,
                    forall|k: int| 0 <= k < out@.len() ==> out@[k] == all@[k + 1],
                decreases all@.len() - i,
            {
                out.push(all[i]);
                i += 1;
            }
            proof {
                assert(self@.log_vec == Some(all@));
                if all@.len() > 0 {
                    assert(out@ =~= all@.skip(1));
                } else {
                    assert(out@ =~= Seq::<u32>::empty());
                }
            }
        } else {
            assert(out@ =~= bookmarks(self@));
        }
        out
    }

    /// Draws the list of bookmarks and the preview of the selected one.
    fn draw_bookmarks(&self, c: &mut Canvas, sel: u32, deleting: bool, vw: u32, vh: u32)
        requires
            self@.valid(),
            has_room(
                MenuState::BookmarkList { bm_index: sel, deleting },
                vw as int,
                vh as int,
            ),
        ensures
            final(c)@ == bookmark_ops(old(c)@, self@, sel as int, deleting, vw as int, vh as int),
    {
        let log = self.bookmark_slice();
        let count: u32 = log.len() as u32;
        let w: u32 = width_of_menu(vw);
        let x: i32 = ((vw - w) / 2) as i32;
        let total_h: i32 = vh as i32 - 16;
        let list_h: i32 = total_h / 3;
        c.frame(x, 8, w, list_h as u32, Edge::Inside, 2);
        c.label(
            if deleting {
                "删除书签"
            } else {
                "书签列表"
            },
            mid_anchor(x + (w / 2) as i32, 21),
        );
        c.fill(x + 4, 30, w - 8, 1, Ink::Black);
        let cancel_y: i32 = 8 + list_h - 4 - 24;
        let cancel: bool = sel >= count;
        if cancel {
            c.fill(x + 3, cancel_y, w - 6, ITEM_H, Ink::Black);
        }
        c.text(
            join(prefix_of(cancel), "取消"),
            line_anchor(x + PADDING as i32, cancel_y + 12, cancel),
        );
        let top: i32 = 32;
        let scroll_h: i32 = if cancel_y - 2 - top > 0 {
            cancel_y - 2 - top
        } else {
            0
        };
        let visible: u32 = if scroll_h / 24 >= 1 {
            (scroll_h / 24) as u32
        } else {
            1
        };
        let first: u32 = if count <= visible {
            0
        } else if cancel || sel > count - visible {
            count - visible
        } else if sel >= visible {
            sel - visible + 1
        } else {
            0
        };
        self.draw_bookmark_lines(c, log.as_slice(), sel, deleting, x, w, first, visible);
        Self::draw_scrollbar(c, x + w as i32 - 7, top, scroll_h, count, visible, first);
        if count == 0 {
            let sum: i32 = top + cancel_y - 2;
            let middle: i32 = if sum >= 0 {
                sum / 2
            } else {
                -((-sum) / 2)
            };
            c.label("暂无书签", mid_anchor(x + (w / 2) as i32, middle));
        }
        let py: i32 = 8 + list_h + 6;
        let ph: i32 = total_h - list_h - 6;
        c.frame(0, py, vw, ph as u32, Edge::Inside, 1);
        if sel < count && !self.bookmark_preview.as_str().is_empty() && ph > 12 {
            c.add_op(
                DrawOp::ClippedText(
                    self.bookmark_preview.clone(),
                    Anchor {
                        x: 6,
                        y: py + 14,
                        v: VPos::Top,
                        h: HPos::Left,
                        ink: Ink::Black,
                        face: Face::Wqy15,
                    },
                    Area { x: 4, y: py + 4, w: vw - 8, h: (ph - 8) as u32 },
                ),
            );
        }
    }

    /// Draws the open menu over the page.
    pub fn render_menu_overlay(&self, c: &mut Canvas, vw: u32, vh: u32)
        requires
            self@.valid(),
            has_room(self@.state.menu_state, vw as int, vh as int),
        ensures
            final(c)@ == overlay_ops(old(c)@, self@, vw as int, vh as int),
    {
        match self.state.menu_state {
            MenuState::Closed => {},
            MenuState::Popup { menu_index } => self.draw_popup(c, menu_index, vw, vh),
            MenuState::JumpInput { input_pct } => self.draw_jump(c, input_pct, vw, vh),
            MenuState::Layout { .. } => self.draw_layout(c, vw, vh),
            MenuState::FontList { font_index } => self.draw_fonts(c, font_index, vw, vh),
            MenuState::BookmarkList { bm_index, deleting } => self.draw_bookmarks(
                c,
                bm_index,
                deleting,
                vw,
                vh,
            ),
        }
    }

    /// Draws the progress bar at the bottom of the page.
    pub fn render_progress(&self, c: &mut Canvas, vw: u32, vh: u32)
        requires
            4 <= vw <= 10000,
            vh <= 10000,
        ensures
            final(c)@ == progress_ops(old(c)@, self@, vw as int, vh as int),
    {
        let total: u32 = self.state.ttf_file_len;
        if total == 0 {
            return;
        }
        let current: u32 = if self.state.ttf_offset <= total {
            self.state.ttf_offset
        } else {
            total
        };
        let full: u32 = vw - 4;
        c.frame(2, vh as i32 - 5, full, 3, Edge::Center, 1);
        assert(0 <= current * full <= 0xffff_ffff * 10000) by (nonlinear_arith)
            requires
                0 <= current <= 0xffff_ffff,
                0 <= full <= 10000,
        ;
        assert(current * full / (total as int) <= full) by (nonlinear_arith)
            requires
                0 <= current <= total,
                0 <= full,
                total > 0,
        ;
        let filled: u32 = (current as u64 * full as u64 / total as u64) as u32;
        if filled > 0 {
            c.fill(2, vh as i32 - 5, filled, 3, Ink::Black);
        }
    }
}

/// The selected bookmark is always among the lines that are shown.
pub proof fn law_selected_bookmark_is_shown(count: int, visible: int, sel: int)
    requires
        0 <= sel < count,
        visible >= 1,
    ensures
        bookmark_scroll(count, visible, sel) <= sel < bookmark_scroll(count, visible, sel)
            + visible,
        0 <= bookmark_scroll(count, visible, sel),
        count > visible ==> bookmark_scroll(count, visible, sel) + visible <= count,
{
}

/// The selected font is always among the lines that are shown.
pub proof fn law_selected_font_is_shown(count: int, visible: int, sel: int)
    requires
        0 <= sel < count,
        visible >= 1,
    ensures
        font_scroll(count, visible, sel) <= sel < font_scroll(count, visible, sel) + visible,
{
}

/// The lines of the menu do what they say: leave the book, keep a bookmark, list the bookmarks to
/// open or to delete, ask for a part of the book, for its layout or for a font, turn the panel,
/// sleep, or nothing. They stand in this order.
#[verifier::rlimit(50)]
pub proof fn law_menu_lines_do_what_they_say(v: ReadView, i: u32)
    requires
        v.valid(),
        v.state.menu_state == (MenuState::Popup { menu_index: i }),
        i < MENU_COUNT,
    ensures
        ({
            let t = menu_label(i as int)[0];
            let s = v.state;
            let a = after(v, EventType::KeyShort(3)).state;
            let o = outcome(v, EventType::KeyShort(3));
            &&& t == '返' <==> i == 0
            &&& t == '收' <==> i == 1
            &&& t == '打' <==> i == 2
            &&& t == '删' <==> i == 3
            &&& t == '跳' <==> i == 4
            &&& t == '排' <==> i == 5
            &&& t == '字' <==> i == 6
            &&& t == '旋' <==> i == 7
            &&& t == '睡' <==> i == 8
            &&& t == '取' <==> i == 9
            &&& t == '返' ==> !a.reading && a.retained.page_index is None && a.menu_state is Closed
            &&& t != '返' ==> a.reading == s.reading && a.retained == s.retained
            &&& a.save_bookmark_flag == (s.save_bookmark_flag || t == '收')
            &&& t == '收' ==> a.menu_state is Closed
            &&& t == '打' ==> a.menu_state == (MenuState::BookmarkList { bm_index: 0, deleting: false })
                && a.need_load_preview
            &&& t == '删' ==> a.menu_state == (MenuState::BookmarkList { bm_index: 0, deleting: true })
            &&& t == '跳' ==> a.menu_state is JumpInput
            &&& t == '排' ==> a.menu_state == (MenuState::Layout { px: s.ttf_px, gap: s.line_gap as u8 })
            &&& t == '字' ==> a.menu_state == (MenuState::FontList { font_index: 0 })
            &&& t == '旋' ==> (a.rotate == s.rotate + 1 || a.rotate == 0 && s.rotate == 3)
                && a.menu_state is Closed && o.turn_display && o.save_settings
            &&& t != '旋' ==> a.rotate == s.rotate && !o.turn_display && !o.save_settings
            &&& o.sleep_now <==> t == '睡'
            &&& t == '睡' ==> a == s
            &&& t == '取' ==> a == (ReadState { menu_state: MenuState::Closed, need_render: true, ..s })
            &&& a.ttf_offset == s.ttf_offset && a.ttf_px == s.ttf_px && a.line_gap == s.line_gap
            &&& a.delete_bookmark_flag == s.delete_bookmark_flag
        }),
{
    reveal_strlit("返回书单");
    reveal_strlit("收藏书签");
    reveal_strlit("打开书签");
    reveal_strlit("删除书签");
    reveal_strlit("跳转进度");
    reveal_strlit("排版");
    reveal_strlit("字体");
    reveal_strlit("旋转屏幕");
    reveal_strlit("睡眠");
    reveal_strlit("取消");
}

/// What is asked for in per cent reads back, and as much of the bar is black.
pub proof fn law_jump_bar_shows_the_part(c: Seq<Op>, pct: int, vw: int, vh: int)
    requires
        0 <= pct <= 100,
        100 <= vw <= 0x4000,
        100 <= vh <= 0x4000,
    ensures
        ({
            let r = jump_ops(c, pct, vw, vh);
            let n = c.len() as int;
            &&& r[n + 2] matches Op::Text(t, _) && t.last() == '%' && num_of(t.drop_last()) == pct
            &&& r[n + 3] matches Op::Frame(bar, _, _) && {
                &&& r.len() == n + 4 ==> bar.w * pct < 100
                &&& r.len() == n + 5 ==> (r[n + 4] matches Op::Fill(a, _) && a.x == bar.x && a.w * 100
                    <= bar.w * pct < (a.w + 1) * 100)
                &&& r.len() == n + 4 || r.len() == n + 5
            }
        }),
{
    reveal_strlit("%");
    law_numbers_read_back(pct as nat);
    let t = dec(pct as nat) + "%"@;
    assert(t.drop_last() =~= dec(pct as nat));
    let w = menu_width(vw);
    let bar_w = w - 24;
    assert(0 <= bar_w * pct <= bar_w * 100) by (nonlinear_arith)
        requires
            0 <= pct <= 100,
            bar_w >= 0,
    ;
}

/// A bookmark is listed by how much of the book lies before it, rounded down.
pub proof fn law_bookmarks_are_listed_by_part(off: int, len: int)
    requires
        0 <= off <= len,
        len > 0,
    ensures
        bookmark_percent(off, len) * len <= off * 100 < (bookmark_percent(off, len) + 1) * len,
        0 <= bookmark_percent(off, len) <= 100,
{
    let p = off * 100 / len;
    assert(p * len <= off * 100 < (p + 1) * len) by (nonlinear_arith)
        requires
            len > 0,
            p == off * 100 / len,
    ;
    assert(0 <= p <= 100) by (nonlinear_arith)
        requires
            p * len <= off * 100 < (p + 1) * len,
            0 <= off <= len,
            len > 0,
    ;
}

/// The bookmarks are all entries of the log but the first, which is the place.
pub proof fn law_bookmarks_follow_the_place(v: ReadView, i: int)
    requires
        v.log_vec is Some,
        1 <= i < v.log_vec->0.len(),
    ensures
        bookmarks(v)[i - 1] == v.log_vec->0[i],
        bookmarks(v).len() == v.log_vec->0.len() - 1,
{
}

/// The chosen line of a menu is white on black and marked, every other black and unmarked.
pub proof fn law_chosen_line_is_marked(c: Seq<Op>, a: Area)
    ensures
        line_ink(true) is White,
        line_ink(false) is Black,
        line_prefix(true)[0] == '>',
        line_prefix(false)[0] == ' ',
        with_bar(c, true, a) == c.push(Op::Fill(a, Ink::Black)),
        with_bar(c, false, a) == c,
{
    reveal_strlit("> ");
    reveal_strlit("  ");
}

} // verus!
