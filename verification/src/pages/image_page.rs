//! The picture page: the list of pictures, the shown picture, and setting it as wallpaper.
use vstd::prelude::*;
#[allow(unused_imports)]
use vstd::string::*;

use crate::bits::{clear_pixel, lit, pad_clear, row_bytes};
use crate::draw::{lemma_texts, texts, Anchor, Area, Canvas, DrawOp, Edge, Face, HPos, Ink, Op, VPos};
use crate::event::EventType;
use crate::flash_sleep::{
    begin_sleep_image_write, beside_mark, bmp_info, convert_bmp_row, dark, finish_sleep_image_write,
    image_writes, lemma_covering, lemma_info_sound, no_header, row_offset, source_y,
    write_sleep_pixel_row, BmpInfo, FlashWrite, WriteView, BMP_HEADER, ROW_BYTES, STORAGE_OFFSET,
};
use crate::text::join;
use crate::ttf_sd::tables::{readable, reads, window};

verus! {

/// The panel as it is wired.
pub const PHYS_W: u32 = 400;

pub const PHYS_H: u32 = 300;

/// The panel as it is seen, upright.
pub const VIS_W: u32 = 300;

pub const VIS_H: u32 = 400;

/// The longest row of a picture, in bytes.
pub const SRC_ROW_BUF: usize = 2048;

/// How many pictures are listed at most.
pub const IMAGES_MAX: usize = 40;

/// How many lines the list has at most.
pub const LIST_MAX: usize = 20;

/// The menu over a picture.
#[derive(Clone, Copy, Debug, PartialEq, Eq, Structural)]
pub enum ImageMenuState {
    Closed,
    Popup { menu_index: u32 },
}

/// How setting a wallpaper went.
#[derive(Clone, Copy, Debug, PartialEq, Eq, Structural)]
pub enum WallpaperStatus {
    Done,
    Failed,
}

impl WallpaperStatus {
    /// What the user is told.
    pub open spec fn message(self) -> Seq<char> {
        match self {
            WallpaperStatus::Done => "壁纸设置成功"@,
            WallpaperStatus::Failed => "壁纸设置失败"@,
        }
    }

    /// What the user is told.
    pub fn text(self) -> (s: &'static str)
        ensures
            s@ == self.message(),
    {
        match self {
            WallpaperStatus::Done => "壁纸设置成功",
            WallpaperStatus::Failed => "壁纸设置失败",
        }
    }
}

/// The part of the picture page that is plain numbers and flags.
#[derive(Clone, Copy, Debug, PartialEq, Eq, Structural)]
pub struct ImageState {
    pub running: bool,
    pub viewing: bool,
    pub loading: bool,
    /// The chosen line: the way out, then the pictures.
    pub choose_index: u32,
    pub need_render: bool,
    pub menu_state: ImageMenuState,
    pub save_wallpaper_flag: bool,
    pub status_msg: Option<WallpaperStatus>,
}

/// The picture page.
pub struct ImagePage {
    pub state: ImageState,
    /// The pictures by name, once they were looked up.
    pub menus: Option<Vec<String>>,
}

/// The picture page as plain values.
pub struct ImageView {
    pub state: ImageState,
    pub menus: Option<Seq<Seq<char>>>,
}

impl View for ImagePage {
    type V = ImageView;

    open spec fn view(&self) -> ImageView {
        ImageView {
            state: self.state,
            menus: match self.menus {
                Some(m) => Some(texts(m@)),
                None => None,
            },
        }
    }
}

impl ImageView {
    /// How many pictures are listed.
    pub open spec fn count(self) -> nat {
        match self.menus {
            Some(m) => m.len(),
            None => 0,
        }
    }

    /// The page is in a state that it can be in.
    pub open spec fn valid(self) -> bool {
        &&& self.state.menu_state matches ImageMenuState::Popup { menu_index } ==> menu_index < 2
        &&& self.state.choose_index <= IMAGES_MAX
        &&& self.count() <= IMAGES_MAX
    }
}

/// What the caller does after a key event, beside drawing.
#[derive(Clone, Copy, Debug, PartialEq, Eq, Structural)]
pub struct ImageOutcome {
    /// How long no further event is taken.
    pub delay_ms: u64,
    /// The time until sleep starts over.
    pub refresh_active: bool,
}

/// The page after a long press of the third key.
pub open spec fn left(s: ImageState) -> ImageState {
    if s.viewing {
        ImageState {
            viewing: false,
            menu_state: ImageMenuState::Closed,
            need_render: true,
            ..s
        }
    } else {
        ImageState { running: false, ..s }
    }
}

/// The page after a short press of the third key.
pub open spec fn chosen(v: ImageView) -> ImageState {
    let s = v.state;
    match s.menu_state {
        ImageMenuState::Popup { menu_index } => if menu_index == 0 {
            ImageState {
                viewing: false,
                menu_state: ImageMenuState::Closed,
                need_render: true,
                ..s
            }
        } else {
            ImageState { save_wallpaper_flag: true, ..s }
        },
        ImageMenuState::Closed => if s.viewing {
            ImageState {
                menu_state: ImageMenuState::Popup { menu_index: 0 },
                need_render: true,
                ..s
            }
        } else if v.menus is None {
            s
        } else if s.choose_index == 0 {
            ImageState { running: false, ..s }
        } else if s.choose_index <= v.count() {
            ImageState { viewing: true, loading: true, need_render: true, ..s }
        } else {
            s
        },
    }
}

/// The popup menu's line after a step; a held key goes round.
pub open spec fn menu_moved(i: u32, down: bool, held: bool) -> u32 {
    if down {
        if i < 1 {
            (i + 1) as u32
        } else if held {
            0
        } else {
            i
        }
    } else if i > 0 {
        (i - 1) as u32
    } else if held {
        1
    } else {
        i
    }
}

/// The chosen line after a step.
pub open spec fn line_moved(i: u32, n: int, down: bool) -> u32 {
    if down {
        if i < n {
            (i + 1) as u32
        } else {
            i
        }
    } else if i > 0 {
        (i - 1) as u32
    } else {
        i
    }
}

/// The page after the first key (`down`) or the second, pressed shortly or `held`.
pub open spec fn scrolled(v: ImageView, down: bool, held: bool) -> ImageState {
    let s = v.state;
    match s.menu_state {
        ImageMenuState::Popup { menu_index } => {
            let i = menu_moved(menu_index, down, held);
            ImageState {
                menu_state: ImageMenuState::Popup { menu_index: i },
                need_render: s.need_render || held || i != menu_index,
                ..s
            }
        },
        ImageMenuState::Closed => if s.viewing {
            s
        } else {
            let i = line_moved(s.choose_index, v.count() as int, down);
            ImageState {
                choose_index: i,
                need_render: s.need_render || i != s.choose_index,
                ..s
            }
        },
    }
}

/// The page after an event.
pub open spec fn after(v: ImageView, e: EventType) -> ImageState {
    if e == EventType::KeyLongEnd(3) {
        left(v.state)
    } else if e == EventType::KeyShort(3) {
        chosen(v)
    } else if e == EventType::KeyShort(1) {
        scrolled(v, true, false)
    } else if e == EventType::KeyLongIng(1) {
        scrolled(v, true, true)
    } else if e == EventType::KeyShort(2) {
        scrolled(v, false, false)
    } else if e == EventType::KeyLongIng(2) {
        scrolled(v, false, true)
    } else {
        v.state
    }
}

/// What an event asks of the caller.
pub open spec fn outcome(v: ImageView, e: EventType) -> ImageOutcome {
    let scrolls = v.state.menu_state is Popup || !v.state.viewing;
    let held = e == EventType::KeyLongIng(1) || e == EventType::KeyLongIng(2);
    ImageOutcome {
        delay_ms: if held && scrolls {
            200
        } else {
            0
        },
        refresh_active: e == EventType::KeyShort(1) || e == EventType::KeyShort(2) || e
            == EventType::KeyShort(3) || (e == EventType::KeyLongEnd(3) && v.state.viewing),
    }
}

/// What the caller does next.
#[derive(Clone, Copy, Debug, PartialEq, Eq, Structural)]
pub enum ImageTask {
    /// The page is left.
    Stop,
    /// The shown picture is set as wallpaper.
    SaveWallpaper,
    /// A note that the picture is being loaded is shown for half a second.
    ShowLoading,
    /// The picture is drawn.
    DrawImage,
    /// The list is drawn.
    DrawList,
    /// Nothing but to wait and, after a while, to sleep.
    Idle,
}

/// What the caller does next.
pub open spec fn next_task(s: ImageState) -> ImageTask {
    if !s.running {
        ImageTask::Stop
    } else if s.save_wallpaper_flag {
        ImageTask::SaveWallpaper
    } else if !s.need_render {
        ImageTask::Idle
    } else if s.viewing && s.loading {
        ImageTask::ShowLoading
    } else if s.viewing {
        ImageTask::DrawImage
    } else {
        ImageTask::DrawList
    }
}

/// The page once the caller has been told.
pub open spec fn task_taken(s: ImageState) -> ImageState {
    match next_task(s) {
        ImageTask::SaveWallpaper => ImageState { save_wallpaper_flag: false, ..s },
        ImageTask::ShowLoading => ImageState { loading: false, ..s },
        ImageTask::DrawImage => ImageState { need_render: false, ..s },
        ImageTask::DrawList => ImageState { need_render: false, ..s },
        _ => s,
    }
}

impl ImagePage {
    /// The page before anything was looked up.
    pub fn new() -> (p: ImagePage)
        ensures
            p@ == (ImageView {
                state: ImageState {
                    running: false,
                    viewing: false,
                    loading: false,
                    choose_index: 0,
                    need_render: true,
                    menu_state: ImageMenuState::Closed,
                    save_wallpaper_flag: false,
                    status_msg: None,
                },
                menus: None,
            }),
            p@.valid(),
    {
        ImagePage {
            state: ImageState {
                running: false,
                viewing: false,
                loading: false,
                choose_index: 0,
                need_render: true,
                menu_state: ImageMenuState::Closed,
                save_wallpaper_flag: false,
                status_msg: None,
            },
            menus: None,
        }
    }

    /// Starts the page with the pictures that were found.
    pub fn start(&mut self, images: Vec<String>)
        requires
            old(self)@.valid(),
            images@.len() <= IMAGES_MAX,
        ensures
            final(self)@ == (ImageView {
                state: ImageState { running: true, need_render: true, ..old(self)@.state },
                menus: Some(texts(images@)),
            }),
            final(self)@.valid(),
    {
        proof {
            lemma_texts(images@);
        }
        self.state.running = true;
        self.state.need_render = true;
        self.menus = Some(images);
    }

    /// How many pictures are listed.
    fn total(&self) -> (n: usize)
        ensures
            n == self@.count(),
    {
        match &self.menus {
            Some(m) => {
                proof {
                    lemma_texts(m@);
                }
                m.len()
            },
            None => 0,
        }
    }

    /// The chosen picture; none where the way out is chosen.
    pub fn image_index(&self) -> (i: Option<usize>)
        ensures
            i == (if 1 <= self@.state.choose_index <= self@.count() {
                Some((self@.state.choose_index - 1) as usize)
            } else {
                None
            }),
    {
        if self.state.choose_index == 0 {
            return None;
        }
        let idx: usize = (self.state.choose_index - 1) as usize;
        if idx < self.total() {
            Some(idx)
        } else {
            None
        }
    }

    /// The file of the chosen picture.
    pub fn image_file(&self) -> (f: Option<String>)
        ensures
            f is Some <==> 1 <= self@.state.choose_index <= self@.count(),
            f is Some ==> f->0@ == self@.menus->0[self@.state.choose_index - 1] + ".bmp"@,
    {
        match self.image_index() {
            Some(i) => match &self.menus {
                Some(m) => {
                    proof {
                        lemma_texts(m@);
                    }
                    Some(join(m[i].as_str(), ".bmp"))
                },
                None => None,
            },
            None => None,
        }
    }

    /// Takes in a key event.
    pub fn handle_event(&mut self, e: EventType) -> (o: ImageOutcome)
        requires
            old(self)@.valid(),
        ensures
            final(self)@ == (ImageView { state: after(old(self)@, e), ..old(self)@ }),
            o == outcome(old(self)@, e),
            final(self)@.valid(),
    {
        let n: usize = self.total();
        let s = self.state;
        let scrolls: bool = match s.menu_state {
            ImageMenuState::Popup { .. } => true,
            ImageMenuState::Closed => !s.viewing,
        };
        let mut o = ImageOutcome { delay_ms: 0, refresh_active: false };
        let mut next = s;
        if e == EventType::KeyLongEnd(3) {
            if s.viewing {
                next.viewing = false;
                next.menu_state = ImageMenuState::Closed;
                next.need_render = true;
                o.refresh_active = true;
            } else {
                next.running = false;
            }
        } else if e == EventType::KeyShort(3) {
            o.refresh_active = true;
            match s.menu_state {
                ImageMenuState::Popup { menu_index } => {
                    if menu_index == 0 {
                        next.viewing = false;
                        next.menu_state = ImageMenuState::Closed;
                        next.need_render = true;
                    } else {
                        next.save_wallpaper_flag = true;
                    }
                },
                ImageMenuState::Closed => {
                    if s.viewing {
                        next.menu_state = ImageMenuState::Popup { menu_index: 0 };
                        next.need_render = true;
                    } else if self.menus.is_some() {
                        if s.choose_index == 0 {
                            next.running = false;
                        } else if s.choose_index as usize <= n {
                            next.viewing = true;
                            next.loading = true;
                            next.need_render = true;
                        }
                    }
                },
            }
        } else if e == EventType::KeyShort(1) {
            o.refresh_active = true;
            next = s.scroll(n, true, false);
        } else if e == EventType::KeyShort(2) {
            o.refresh_active = true;
            next = s.scroll(n, false, false);
        } else if e == EventType::KeyLongIng(1) {
            o.delay_ms = if scrolls { 200 } else { 0 };
            next = s.scroll(n, true, true);
        } else if e == EventType::KeyLongIng(2) {
            o.delay_ms = if scrolls { 200 } else { 0 };
            next = s.scroll(n, false, true);
        }
        self.state = next;
        o
    }

    /// What the caller does next.
    pub fn take_task(&mut self) -> (t: ImageTask)
        requires
            old(self)@.valid(),
        ensures
            t == next_task(old(self)@.state),
            final(self)@ == (ImageView { state: task_taken(old(self)@.state), ..old(self)@ }),
            final(self)@.valid(),
    {
        if !self.state.running {
            ImageTask::Stop
        } else if self.state.save_wallpaper_flag {
            self.state.save_wallpaper_flag = false;
            ImageTask::SaveWallpaper
        } else if !self.state.need_render {
            ImageTask::Idle
        } else if self.state.viewing && self.state.loading {
            self.state.loading = false;
            ImageTask::ShowLoading
        } else if self.state.viewing {
            self.state.need_render = false;
            ImageTask::DrawImage
        } else {
            self.state.need_render = false;
            ImageTask::DrawList
        }
    }

    /// Goes back to the list once the wallpaper was set or not.
    pub fn wallpaper_done(&mut self)
        requires
            old(self)@.valid(),
        ensures
            final(self)@ == (ImageView {
                state: ImageState {
                    viewing: false,
                    menu_state: ImageMenuState::Closed,
                    need_render: true,
                    status_msg: None,
                    ..old(self)@.state
                },
                ..old(self)@
            }),
            final(self)@.valid(),
    {
        self.state.viewing = false;
        self.state.menu_state = ImageMenuState::Closed;
        self.state.need_render = true;
        self.state.status_msg = None;
    }
}

impl ImageState {
    /// Moves in the menu or in the list of `n` pictures.
    fn scroll(self, n: usize, down: bool, held: bool) -> (s: ImageState)
        requires
            self.menu_state matches ImageMenuState::Popup { menu_index } ==> menu_index < 2,
            self.choose_index <= IMAGES_MAX,
        ensures
            forall|v: ImageView|
                #![trigger scrolled(v, down, held)]
                v.state == self && v.count() == n ==> s == scrolled(v, down, held),
    {
        let mut s = self;
        match self.menu_state {
            ImageMenuState::Popup { menu_index } => {
                let i: u32 = if down {
                    if menu_index < 1 {
                        menu_index + 1
                    } else if held {
                        0
                    } else {
                        menu_index
                    }
                } else if menu_index > 0 {
                    menu_index - 1
                } else if held {
                    1
                } else {
                    menu_index
                };
                s.menu_state = ImageMenuState::Popup { menu_index: i };
                if held || i != menu_index {
                    s.need_render = true;
                }
            },
            ImageMenuState::Closed => {
                if !self.viewing {
                    if down {
                        if (self.choose_index as usize) < n {
                            s.choose_index = self.choose_index + 1;
                            s.need_render = true;
                        }
                    } else if self.choose_index > 0 {
                        s.choose_index = self.choose_index - 1;
                        s.need_render = true;
                    }
                }
            },
        }
        s
    }
}

/// The line of the shown list never leaves it.
pub proof fn law_choice_stays_in_the_list(v: ImageView, e: EventType)
    requires
        v.valid(),
        v.state.choose_index <= v.count(),
    ensures
        after(v, e).choose_index <= v.count(),
{
}

/// A text in the middle of the panel.
pub open spec fn message_at(y: int) -> Anchor {
    Anchor {
        x: 150,
        y: y as i32,
        v: VPos::Center,
        h: HPos::Center,
        ink: Ink::Black,
        face: Face::Wqy15,
    }
}

fn message_anchor(y: i32) -> (a: Anchor)
    ensures
        a == message_at(y as int),
{
    Anchor {
        x: 150,
        y,
        v: VPos::Center,
        h: HPos::Center,
        ink: Ink::Black,
        face: Face::Wqy15,
    }
}

/// A text alone on the panel.
pub open spec fn message_ops(text: Seq<char>) -> Seq<Op> {
    seq![Op::Clear(Ink::White), Op::Text(text, message_at(200))]
}

/// A text alone on the panel.
pub fn show_message(text: &str) -> (c: Canvas)
    ensures
        c@ == message_ops(text@),
{
    let mut c = Canvas::new();
    c.clear(Ink::White);
    c.label(text, message_anchor(200));
    assert(c@ =~= message_ops(text@));
    c
}

/// The line `i` of the list: the way out, then the pictures.
pub open spec fn list_line(images: Seq<Seq<char>>, i: int) -> Seq<char> {
    if i == 0 {
        "退出"@
    } else {
        images[i - 1]
    }
}

/// The lines of the list, as many as are shown.
pub open spec fn list_lines(images: Seq<Seq<char>>) -> Seq<Seq<char>> {
    let n = if images.len() + 1 < LIST_MAX {
        images.len() + 1
    } else {
        LIST_MAX as nat
    };
    Seq::new(n, |i: int| list_line(images, i))
}

/// What the list of pictures looks like, with a note below it where there is one.
pub open spec fn list_ops(v: ImageView) -> Seq<Op> {
    let c = seq![Op::Clear(Ink::White)];
    let d = match v.menus {
        None => c,
        Some(images) => if images.len() == 0 {
            c.push(Op::Text("无图片文件\n请将BMP放入SD卡images目录"@, message_at(200)))
        } else {
            c.push(
                Op::Menu(
                    list_lines(images),
                    v.state.choose_index as int,
                    Area { x: 0, y: 0, w: VIS_W, h: VIS_H },
                ),
            )
        },
    };
    match v.state.status_msg {
        Some(m) => d.push(Op::Text(m.message(), message_at(380))),
        None => d,
    }
}

/// The text of a menu line.
pub open spec fn menu_label(i: int) -> Seq<char> {
    if i == 0 {
        "返回列表"@
    } else {
        "设置为壁纸"@
    }
}

/// A line of the menu over a picture, selected or not.
pub open spec fn menu_line(c: Seq<Op>, i: int, selected: bool) -> Seq<Op> {
    let y = 172 + i * 28;
    let bar = if selected {
        c.push(Op::Fill(Area { x: 74, y: y as i32, w: 152, h: 28 }, Ink::Black))
    } else {
        c
    };
    bar.push(
        Op::Text(
            (if selected {
                "> "@
            } else {
                "  "@
            }) + menu_label(i),
            Anchor {
                x: 78,
                y: (y + 14) as i32,
                v: VPos::Center,
                h: HPos::Left,
                ink: if selected {
                    Ink::White
                } else {
                    Ink::Black
                },
                face: Face::Wqy15,
            },
        ),
    )
}

/// `c` with the menu over a picture.
pub open spec fn overlay_ops(c: Seq<Op>, menu_index: int) -> Seq<Op> {
    let framed = c.push(Op::Frame(Area { x: 70, y: 164, w: 160, h: 72 }, Edge::Outside, 2));
    menu_line(menu_line(framed, 0, menu_index == 0), 1, menu_index == 1)
}

impl ImagePage {
    /// Draws the list of pictures; a note below it is shown once.
    pub fn draw_list(&mut self) -> (c: Canvas)
        ensures
            c@ == list_ops(old(self)@),
            final(self)@ == (ImageView {
                state: ImageState { status_msg: None, ..old(self)@.state },
                ..old(self)@
            }),
    {
        let mut c = Canvas::new();
        c.clear(Ink::White);
        assert(c@ =~= seq![Op::Clear(Ink::White)]);
        if let Some(images) = &self.menus {
            proof {
                lemma_texts(images@);
            }
            if images.len() == 0 {
                c.label("无图片文件\n请将BMP放入SD卡images目录", message_anchor(200));
            } else {
                let mut lines: Vec<String> = Vec::new();
                lines.push("退出".to_owned());
                let mut i: usize = 0;
                while i < images.len() && lines.len() < LIST_MAX
                    invariant
                        i <= images@.len(),
                        lines@.len() == i + 1,
                        i + 1 <= LIST_MAX,
                        lines@[0]@ == "退出"@,
                        forall|k: int| 1 <= k < lines@.len() ==> lines@[k]@ == images@[k - 1]@,
                    decreases images@.len() - i,
                {
                    lines.push(images[i].clone());
                    i += 1;
                }
                proof {
                    lemma_texts(lines@);
                    assert(texts(lines@) =~= list_lines(texts(images@)));
                }
                c.add_op(
                    DrawOp::Menu(
                        lines,
                        self.state.choose_index as usize,
                        Area { x: 0, y: 0, w: VIS_W, h: VIS_H },
                    ),
                );
            }
        }
        if let Some(m) = self.state.status_msg {
            c.label(m.text(), message_anchor(380));
        }
        self.state.status_msg = None;
        c
    }

    /// Draws a line of the menu over a picture.
    fn draw_menu_line(c: &mut Canvas, i: i32, label: &str, selected: bool)
        requires
            0 <= i < 2,
            label@ == menu_label(i as int),
        ensures
            final(c)@ == menu_line(old(c)@, i as int, selected),
    {
        let y: i32 = 172 + i * 28;
        if selected {
            c.fill(74, y, 152, 28, Ink::Black);
        }
        let prefix: &str = if selected {
            "> "
        } else {
            "  "
        };
        c.text(
            join(prefix, label),
            Anchor {
                x: 78,
                y: y + 14,
                v: VPos::Center,
                h: HPos::Left,
                ink: if selected {
                    Ink::White
                } else {
                    Ink::Black
                },
                face: Face::Wqy15,
            },
        );
    }

    /// Draws the menu over a picture.
    pub fn render_menu_overlay(&self, c: &mut Canvas, menu_index: u32)
        ensures
            final(c)@ == overlay_ops(old(c)@, menu_index as int),
    {
        c.frame(70, 164, 160, 72, Edge::Outside, 2);
        Self::draw_menu_line(c, 0, "返回列表", menu_index == 0);
        Self::draw_menu_line(c, 1, "设置为壁纸", menu_index == 1);
    }
}

/// A BMP file can be shown: its header is whole and supported, its rows are not too long, and the
/// file reaches to its pixels.
pub open spec fn showable(data: Seq<u8>) -> bool {
    &&& data.len() >= BMP_HEADER
    &&& bmp_info(data.take(BMP_HEADER as int)) is Some
    &&& bmp_info(data.take(BMP_HEADER as int))->0.src_row_stride <= SRC_ROW_BUF
    &&& bmp_info(data.take(BMP_HEADER as int))->0.pixel_offset <= data.len()
}

/// What a BMP file says of itself.
pub open spec fn info_of(data: Seq<u8>) -> BmpInfo {
    bmp_info(data.take(BMP_HEADER as int))->0
}

/// Where the rows of a BMP file begin: after its header at the earliest.
pub open spec fn rows_at(info: BmpInfo) -> int {
    if info.pixel_offset > BMP_HEADER {
        info.pixel_offset as int
    } else {
        BMP_HEADER as int
    }
}

/// The row `i` of a BMP file lies within the file.
pub open spec fn row_there(data: Seq<u8>, info: BmpInfo, i: int) -> bool {
    rows_at(info) + (i + 1) * info.src_row_stride <= data.len()
}

/// The row `i` of a BMP file.
pub open spec fn row_of(data: Seq<u8>, info: BmpInfo, i: int) -> Seq<u8> {
    data.subrange(
        rows_at(info) + i * info.src_row_stride,
        rows_at(info) + (i + 1) * info.src_row_stride,
    )
}

/// The stored row that is shown in the row `vy` of the panel.
pub open spec fn stored_row(info: BmpInfo, vy: int) -> int {
    let r = vy * info.bmp_h / (VIS_H as int);
    if info.top_down {
        r
    } else {
        info.bmp_h - 1 - r
    }
}

/// The pixel of a stored row that is shown in the column `vx` of the panel is dark.
pub open spec fn row_dark(row: Seq<u8>, info: BmpInfo, vx: int) -> bool {
    dark(row, 0, info.bpp as int, vx * info.bmp_w / (VIS_W as int))
}

/// The pixel at `vx`, `vy` of the panel is dark when the picture is shown.
pub open spec fn image_dark(data: Seq<u8>, info: BmpInfo, vx: int, vy: int) -> bool {
    row_there(data, info, stored_row(info, vy)) && row_dark(
        row_of(data, info, stored_row(info, vy)),
        info,
        vx,
    )
}

/// `buf` after the picture was drawn into it. The panel stands upright while its buffer lies on
/// its side: what is seen at `vx`, `vy` is the bit at `399 - vy`, `vx`, and dark is a bit that is
/// not set.
pub open spec fn drawn_over(before: Seq<u8>, buf: Seq<u8>, data: Seq<u8>, info: BmpInfo) -> bool {
    &&& buf.len() == before.len()
    &&& forall|px: int, py: int|
        0 <= px < PHYS_W && 0 <= py < PHYS_H ==> #[trigger] lit(buf, PHYS_W as int, px, py) == (lit(
            before,
            PHYS_W as int,
            px,
            py,
        ) && !image_dark(data, info, py, PHYS_W - 1 - px))
}

impl ImagePage {
    /// Draws a stored row into the row `dy` of the upright panel.
    fn write_visual_row(buf: &mut Vec<u8>, dy: u32, src_row: &Vec<u8>, info: &BmpInfo)
        requires
            dy < VIS_H,
            old(buf)@.len() == 15000,
        ensures
            final(buf)@.len() == old(buf)@.len(),
            forall|px: int, py: int|
                0 <= px < PHYS_W && 0 <= py < PHYS_H ==> #[trigger] lit(
                    final(buf)@,
                    PHYS_W as int,
                    px,
                    py,
                ) == (lit(old(buf)@, PHYS_W as int, px, py) && !(px == PHYS_W - 1 - dy && row_dark(
                    src_row@,
                    *info,
                    py,
                ))),
    {
        let mut bits: Vec<u8> = Vec::new();
        while bits.len() < ROW_BYTES as usize
            invariant
                bits@.len() <= ROW_BYTES,
            decreases ROW_BYTES - bits@.len(),
        {
            bits.push(0);
        }
        convert_bmp_row(src_row.as_slice(), info.bpp, info.bmp_w, VIS_W, &mut bits);
        let mut vx: u32 = 0;
        while vx < VIS_W
            invariant
                vx <= VIS_W,
                dy < VIS_H,
                buf@.len() == 15000,
                buf@.len() == old(buf)@.len(),
                bits@.len() == ROW_BYTES,
                forall|x: int|
                    0 <= x < VIS_W ==> #[trigger] lit(bits@, VIS_W as int, x, 0) == row_dark(
                        src_row@,
                        *info,
                        x,
                    ),
                forall|px: int, py: int|
                    0 <= px < PHYS_W && 0 <= py < PHYS_H ==> #[trigger] lit(
                        buf@,
                        PHYS_W as int,
                        px,
                        py,
                    ) == (lit(old(buf)@, PHYS_W as int, px, py) && !(px == PHYS_W - 1 - dy && py
                        < vx && row_dark(src_row@, *info, py))),
            decreases VIS_W - vx,
        {
            let b: u8 = bits[(vx / 8) as usize];
            let k: u8 = (vx % 8) as u8;
            let is_dark: bool = b & (0x80u8 >> k) != 0;
            assert(is_dark == lit(bits@, VIS_W as int, vx as int, 0));
            if is_dark {
                clear_pixel(buf, PHYS_W, PHYS_H, PHYS_W - 1 - dy, vx);
            }
            vx += 1;
        }
    }

    /// Reads what a BMP file says of itself, where it can be shown.
    fn open_bmp<R: Fn(u32, usize) -> Vec<u8>>(read: &R) -> (info: Option<BmpInfo>)
        requires
            readable(*read),
        ensures
            info matches Some(i) ==> i.sound() && i.src_row_stride <= SRC_ROW_BUF,
            forall|d: Seq<u8>| #[trigger]
                reads(*read, d) ==> (info is Some <==> showable(d)) && (info is Some ==> info->0
                    == info_of(d)),
    {
        let head = read(0, BMP_HEADER);
        if head.len() < BMP_HEADER {
            return None;
        }
        proof {
            lemma_info_sound(head@);
            assert forall|d: Seq<u8>| #[trigger] reads(*read, d) implies d.len() >= BMP_HEADER
                && head@ == d.take(BMP_HEADER as int) by {
                assert(head@ == window(d, 0, BMP_HEADER as int));
                assert(head@ =~= d.take(BMP_HEADER as int));
            }
        }
        let info = match BmpInfo::parse(head.as_slice()) {
            Some(i) => i,
            None => {
                return None;
            },
        };
        if info.src_row_stride > SRC_ROW_BUF {
            return None;
        }
        if info.pixel_offset > BMP_HEADER {
            let last = read((info.pixel_offset - 1) as u32, 1);
            proof {
                assert forall|d: Seq<u8>| #[trigger] reads(*read, d) implies (last@.len() > 0 <==> info.pixel_offset <= d.len()) by {
                    assert(last@ == window(d, info.pixel_offset - 1, 1));
                }
            }
            if last.len() == 0 {
                return None;
            }
        }
        Some(info)
    }

    /// Reads the stored row `i`, where the file reaches that far.
    fn read_row<R: Fn(u32, usize) -> Vec<u8>>(read: &R, info: &BmpInfo, i: u32) -> (row: Option<
        Vec<u8>,
    >)
        requires
            readable(*read),
            info.sound(),
            info.src_row_stride <= SRC_ROW_BUF,
            i < info.bmp_h,
        ensures
            forall|d: Seq<u8>| #[trigger]
                reads(*read, d) ==> (row is Some <==> row_there(d, *info, i as int)) && (row is Some
                    ==> row->0@ == row_of(d, *info, i as int)),
    {
        let base: u64 = if info.pixel_offset > BMP_HEADER {
            info.pixel_offset as u64
        } else {
            BMP_HEADER as u64
        };
        let stride: u64 = info.src_row_stride as u64;
        assert(0 <= i * stride <= 0x8000_0000 * 2048) by (nonlinear_arith)
            requires
                0 <= i <= 0x8000_0000,
                0 <= stride <= 2048,
        ;
        let at: u64 = base + i as u64 * stride;
        proof {
            assert((i + 1) * info.src_row_stride == i * stride + stride) by (nonlinear_arith)
                requires
                    info.src_row_stride == stride,
            ;
            assert(stride >= 1);
        }
        if at > u32::MAX as u64 {
            return None;
        }
        let row = read(at as u32, info.src_row_stride);
        proof {
            assert forall|d: Seq<u8>| #[trigger] reads(*read, d) implies (row@.len()
                == info.src_row_stride <==> row_there(d, *info, i as int)) && (row@.len()
                == info.src_row_stride ==> row@ == row_of(d, *info, i as int)) by {
                assert(row@ == window(d, at as int, stride as int));
                if row_there(d, *info, i as int) {
                    assert(row@ =~= row_of(d, *info, i as int));
                }
            }
        }
        if row.len() != info.src_row_stride {
            return None;
        }
        Some(row)
    }

    /// Draws the stored row `i` into each row of the panel that shows it.
    fn draw_stored_row(buf: &mut Vec<u8>, i: u32, row: &Vec<u8>, info: &BmpInfo)
        requires
            old(buf)@.len() == 15000,
            info.sound(),
            i < info.bmp_h,
        ensures
            final(buf)@.len() == old(buf)@.len(),
            forall|px: int, py: int|
                0 <= px < PHYS_W && 0 <= py < PHYS_H ==> #[trigger] lit(
                    final(buf)@,
                    PHYS_W as int,
                    px,
                    py,
                ) == (lit(old(buf)@, PHYS_W as int, px, py) && !(stored_row(
                    *info,
                    PHYS_W - 1 - px,
                ) == i && row_dark(row@, *info, py))),
    {
        let visual: u32 = if info.top_down {
            i
        } else {
            info.bmp_h - 1 - i
        };
        let mut dy: u32 = 0;
        while dy < VIS_H
            invariant
                dy <= VIS_H,
                info.sound(),
                i < info.bmp_h,
                visual == (if info.top_down {
                    i as int
                } else {
                    info.bmp_h - 1 - i
                }),
                buf@.len() == 15000,
                buf@.len() == old(buf)@.len(),
                forall|px: int, py: int|
                    0 <= px < PHYS_W && 0 <= py < PHYS_H ==> #[trigger] lit(
                        buf@,
                        PHYS_W as int,
                        px,
                        py,
                    ) == (lit(old(buf)@, PHYS_W as int, px, py) && !(PHYS_W - 1 - px < dy
                        && stored_row(*info, PHYS_W - 1 - px) == i && row_dark(row@, *info, py))),
            decreases VIS_H - dy,
        {
            assert(0 <= dy * info.bmp_h <= 400 * 0x8000_0000) by (nonlinear_arith)
                requires
                    0 <= dy <= 400,
                    0 <= info.bmp_h <= 0x8000_0000,
            ;
            if dy as u64 * info.bmp_h as u64 / VIS_H as u64 == visual as u64 {
                Self::write_visual_row(buf, dy, row, info);
            }
            dy += 1;
        }
    }

    /// Draws a BMP file into the buffer of the panel; refused where the file cannot be shown. A
    /// file that ends early is shown as far as it goes.
    pub fn draw_image_to_buffer<R: Fn(u32, usize) -> Vec<u8>>(read: &R, buf: &mut Vec<u8>) -> (ok:
        bool)
        requires
            readable(*read),
            old(buf)@.len() == 15000,
        ensures
            final(buf)@.len() == old(buf)@.len(),
            forall|d: Seq<u8>| #[trigger]
                reads(*read, d) ==> ok == showable(d) && (if ok {
                    drawn_over(old(buf)@, final(buf)@, d, info_of(d))
                } else {
                    final(buf)@ == old(buf)@
                }),
    {
        let info = match Self::open_bmp(read) {
            Some(i) => i,
            None => {
                return false;
            },
        };
        let mut i: u32 = 0;
        proof {
            assert forall|vy: int| 0 <= vy < VIS_H implies #[trigger] stored_row(info, vy) >= 0 by {
                lemma_stored_row(info, vy);
            }
        }
        loop
            invariant_except_break
                i < info.bmp_h,
                forall|d: Seq<u8>, k: int|
                    #![trigger reads(*read, d), row_there(d, info, k)]
                    reads(*read, d) && 0 <= k < i ==> row_there(d, info, k),
                forall|d: Seq<u8>, px: int, py: int|
                    #![trigger reads(*read, d), lit(buf@, PHYS_W as int, px, py)]
                    reads(*read, d) && 0 <= px < PHYS_W && 0 <= py < PHYS_H ==> lit(
                        buf@,
                        PHYS_W as int,
                        px,
                        py,
                    ) == (lit(old(buf)@, PHYS_W as int, px, py) && !(stored_row(
                        info,
                        PHYS_W - 1 - px,
                    ) < i && image_dark(d, info, py, PHYS_W - 1 - px))),
            invariant
                i <= info.bmp_h,
                readable(*read),
                info.sound(),
                info.src_row_stride <= SRC_ROW_BUF,
                buf@.len() == 15000,
                buf@.len() == old(buf)@.len(),
            ensures
                forall|d: Seq<u8>, px: int, py: int|
                    #![trigger reads(*read, d), lit(buf@, PHYS_W as int, px, py)]
                    reads(*read, d) && 0 <= px < PHYS_W && 0 <= py < PHYS_H ==> lit(
                        buf@,
                        PHYS_W as int,
                        px,
                        py,
                    ) == (lit(old(buf)@, PHYS_W as int, px, py) && !image_dark(
                        d,
                        info,
                        py,
                        PHYS_W - 1 - px,
                    )),
            decreases info.bmp_h - i,
        {
            match Self::read_row(read, &info, i) {
                Some(row) => {
                    let ghost before = buf@;
                    Self::draw_stored_row(buf, i, &row, &info);
                    proof {
                        assert forall|d: Seq<u8>, px: int, py: int|
                            #![trigger reads(*read, d), lit(buf@, PHYS_W as int, px, py)]
                            reads(*read, d) && 0 <= px < PHYS_W && 0 <= py < PHYS_H implies lit(
                            buf@,
                            PHYS_W as int,
                            px,
                            py,
                        ) == (lit(old(buf)@, PHYS_W as int, px, py) && !(stored_row(
                            info,
                            PHYS_W - 1 - px,
                        ) < i + 1 && image_dark(d, info, py, PHYS_W - 1 - px))) by {
                            assert(lit(before, PHYS_W as int, px, py) == (lit(
                                old(buf)@,
                                PHYS_W as int,
                                px,
                                py,
                            ) && !(stored_row(info, PHYS_W - 1 - px) < i && image_dark(
                                d,
                                info,
                                py,
                                PHYS_W - 1 - px,
                            ))));
                        }
                    }
                },
                None => {
                    proof {
                        assert forall|d: Seq<u8>, px: int, py: int|
                            #![trigger reads(*read, d), lit(buf@, PHYS_W as int, px, py)]
                            reads(*read, d) && 0 <= px < PHYS_W && 0 <= py < PHYS_H implies lit(
                            buf@,
                            PHYS_W as int,
                            px,
                            py,
                        ) == (lit(old(buf)@, PHYS_W as int, px, py) && !image_dark(
                            d,
                            info,
                            py,
                            PHYS_W - 1 - px,
                        )) by {
                            let k = stored_row(info, PHYS_W - 1 - px);
                            if k >= i {
                                lemma_rows_end(d, info, i as int, k);
                            }
                        }
                    }
                    break;
                },
            }
            i += 1;
            if i >= info.bmp_h {
                proof {
                    assert forall|d: Seq<u8>, px: int, py: int|
                        #![trigger reads(*read, d), lit(buf@, PHYS_W as int, px, py)]
                        reads(*read, d) && 0 <= px < PHYS_W && 0 <= py < PHYS_H implies lit(
                        buf@,
                        PHYS_W as int,
                        px,
                        py,
                    ) == (lit(old(buf)@, PHYS_W as int, px, py) && !image_dark(
                        d,
                        info,
                        py,
                        PHYS_W - 1 - px,
                    )) by {
                        lemma_stored_row(info, PHYS_W - 1 - px);
                    }
                }
                break;
            }
        }
        true
    }
}

/// Where one row is beyond the end of the file, so are those after it.
proof fn lemma_rows_end(d: Seq<u8>, info: BmpInfo, i: int, k: int)
    requires
        i <= k,
        !row_there(d, info, i),
    ensures
        !row_there(d, info, k),
{
    let s = info.src_row_stride as int;
    assert((i + 1) * s <= (k + 1) * s) by (nonlinear_arith)
        requires
            i <= k,
            s >= 0,
    ;
}

/// Every row of the panel shows a row of the picture.
proof fn lemma_stored_row(info: BmpInfo, vy: int)
    requires
        info.sound(),
        0 <= vy < VIS_H,
    ensures
        0 <= stored_row(info, vy) < info.bmp_h,
{
    let h = info.bmp_h as int;
    assert(0 <= vy * h / 400 < h) by (nonlinear_arith)
        requires
            0 <= vy < 400,
            h > 0,
    ;
}

/// Showing a picture only ever darkens pixels, so what a white buffer shows is the picture.
pub proof fn law_white_buffer_shows_the_picture(
    before: Seq<u8>,
    buf: Seq<u8>,
    data: Seq<u8>,
    info: BmpInfo,
    vx: int,
    vy: int,
)
    requires
        drawn_over(before, buf, data, info),
        forall|px: int, py: int|
            0 <= px < PHYS_W && 0 <= py < PHYS_H ==> #[trigger] lit(before, PHYS_W as int, px, py),
        0 <= vx < VIS_W,
        0 <= vy < VIS_H,
    ensures
        lit(buf, PHYS_W as int, PHYS_W - 1 - vy, vx) == !image_dark(data, info, vx, vy),
{
    assert(lit(before, PHYS_W as int, PHYS_W - 1 - vy, vx));
}

/// The bits of a row of the kept picture: a set bit for each dark pixel of the stored row, and no
/// other.
pub open spec fn row_bits(bits: Seq<u8>, row: Seq<u8>, info: BmpInfo) -> bool {
    &&& bits.len() == ROW_BYTES
    &&& pad_clear(bits, VIS_W as int, 1)
    &&& forall|x: int|
        0 <= x < VIS_W ==> #[trigger] lit(bits, VIS_W as int, x, 0) == row_dark(row, info, x)
}

/// The write keeps the row `dy` of the picture.
pub open spec fn keeps_row(w: WriteView, data: Seq<u8>, info: BmpInfo, dy: int) -> bool {
    &&& 0 <= dy < VIS_H
    &&& w.offset == row_offset(dy)
    &&& row_there(data, info, stored_row(info, dy))
    &&& row_bits(w.data, row_of(data, info, stored_row(info, dy)), info)
}

/// The write keeps some row of the picture.
pub open spec fn keeps_some_row(w: WriteView, data: Seq<u8>, info: BmpInfo) -> bool {
    exists|dy: int| #[trigger] keeps_row(w, data, info, dy)
}

/// Writes as plain values.
pub open spec fn write_views(ws: Seq<FlashWrite>) -> Seq<WriteView> {
    Seq::new(ws.len(), |i: int| ws[i]@)
}

/// The writes keep the picture: each row that the file holds, once or more, and no other, between
/// the mark being taken away and being set again.
pub open spec fn keeps_picture(ws: Seq<WriteView>, data: Seq<u8>, info: BmpInfo) -> bool {
    &&& image_writes(ws, 15200)
    &&& forall|i: int| 1 <= i < ws.len() - 1 ==> keeps_some_row(#[trigger] ws[i], data, info)
    &&& forall|dy: int|
        0 <= dy < VIS_H && row_there(data, info, #[trigger] stored_row(info, dy)) ==> exists|i: int|
            1 <= i < ws.len() - 1 && keeps_row(#[trigger] ws[i], data, info, dy)
}

/// The rows of the panel that the first `i` stored rows, and the next one up to the row `dy`, show.
pub open spec fn shown_by(info: BmpInfo, i: int, dy: int, y: int) -> bool {
    0 <= y < VIS_H && (stored_row(info, y) < i || (stored_row(info, y) == i && y < dy))
}

impl ImagePage {
    /// One row of the kept picture.
    fn keep_row(row: &Vec<u8>, info: &BmpInfo, dy: u32) -> (w: FlashWrite)
        requires
            dy < VIS_H,
        ensures
            w@.offset == row_offset(dy as int),
            row_bits(w@.data, row@, *info),
    {
        let mut bits: Vec<u8> = Vec::new();
        while bits.len() < ROW_BYTES as usize
            invariant
                bits@.len() <= ROW_BYTES,
            decreases ROW_BYTES - bits@.len(),
        {
            bits.push(0);
        }
        convert_bmp_row(row.as_slice(), info.bpp, info.bmp_w, VIS_W, &mut bits);
        proof {
            assert(row_bytes(VIS_W as int) == ROW_BYTES);
            assert(bits@.take(ROW_BYTES as int) =~= bits@);
            assert forall|x: int| 0 <= x < VIS_W implies #[trigger] lit(bits@, VIS_W as int, x, 0)
                == row_dark(row@, *info, x) by {}
        }
        write_sleep_pixel_row(dy, bits)
    }

    /// Sets a BMP file as wallpaper: what to write to flash, in order. Refused where the file
    /// cannot be shown. A file that ends early is kept as far as it goes.
    pub fn save_wallpaper<R: Fn(u32, usize) -> Vec<u8>>(read: &R) -> (r: Option<Vec<FlashWrite>>)
        requires
            readable(*read),
        ensures
            forall|d: Seq<u8>| #[trigger]
                reads(*read, d) ==> (r is Some <==> showable(d)) && (r is Some ==> keeps_picture(
                    write_views(r->0@),
                    d,
                    info_of(d),
                )),
    {
        let info = match Self::open_bmp(read) {
            Some(i) => i,
            None => {
                return None;
            },
        };
        let mut ws: Vec<FlashWrite> = Vec::new();
        ws.push(begin_sleep_image_write());
        let ghost mut order: Seq<int> = Seq::empty();
        let mut i: u32 = 0;
        let mut going: bool = true;
        proof {
            assert forall|vy: int| 0 <= vy < VIS_H implies 0 <= #[trigger] stored_row(info, vy)
                < info.bmp_h by {
                lemma_stored_row(info, vy);
            }
        }
        while going
            invariant
                readable(*read),
                info.sound(),
                info.src_row_stride <= SRC_ROW_BUF,
                going ==> i < info.bmp_h,
                i <= info.bmp_h,
                ws@.len() == order.len() + 1,
                ws@[0]@ == (WriteView { offset: STORAGE_OFFSET as int, data: no_header() }),
                forall|vy: int|
                    0 <= vy < VIS_H ==> 0 <= #[trigger] stored_row(info, vy) < info.bmp_h,
                forall|d: Seq<u8>, j: int|
                    #![trigger reads(*read, d), order[j]]
                    reads(*read, d) && 0 <= j < order.len() ==> keeps_row(
                        ws@[j + 1]@,
                        d,
                        info,
                        order[j],
                    ),
                forall|j: int| 0 <= j < order.len() ==> beside_mark((#[trigger] ws@[j + 1])@),
                going ==> forall|y: int| #[trigger]
                    shown_by(info, i as int, 0, y) ==> order.contains(y),
                !going ==> forall|d: Seq<u8>, y: int|
                    #![trigger reads(*read, d), stored_row(info, y)]
                    reads(*read, d) && 0 <= y < VIS_H && row_there(d, info, stored_row(info, y))
                        ==> order.contains(y),
            decreases
                    info.bmp_h - i,
                    (if going {
                        1int
                    } else {
                        0
                    }),
        {
            match Self::read_row(read, &info, i) {
                Some(row) => {
                    let visual: u32 = if info.top_down {
                        i
                    } else {
                        info.bmp_h - 1 - i
                    };
                    let mut dy: u32 = 0;
                    while dy < VIS_H
                        invariant
                            dy <= VIS_H,
                            i < info.bmp_h,
                            info.sound(),
                            visual == (if info.top_down {
                                i as int
                            } else {
                                info.bmp_h - 1 - i
                            }),
                            ws@.len() == order.len() + 1,
                            ws@[0]@ == (WriteView {
                                offset: STORAGE_OFFSET as int,
                                data: no_header(),
                            }),
                            forall|d: Seq<u8>| #[trigger]
                                reads(*read, d) ==> row_there(d, info, i as int) && row@ == row_of(
                                    d,
                                    info,
                                    i as int,
                                ),
                            forall|d: Seq<u8>, j: int|
                                #![trigger reads(*read, d), order[j]]
                                reads(*read, d) && 0 <= j < order.len() ==> keeps_row(
                                    ws@[j + 1]@,
                                    d,
                                    info,
                                    order[j],
                                ),
                            forall|j: int|
                                0 <= j < order.len() ==> beside_mark((#[trigger] ws@[j + 1])@),
                            forall|y: int| #[trigger]
                                shown_by(info, i as int, dy as int, y) ==> order.contains(y),
                        decreases VIS_H - dy,
                    {
                        assert(0 <= dy * info.bmp_h <= 400 * 0x8000_0000) by (nonlinear_arith)
                            requires
                                0 <= dy <= 400,
                                0 <= info.bmp_h <= 0x8000_0000,
                        ;
                        let ghost before = order;
                        if dy as u64 * info.bmp_h as u64 / VIS_H as u64 == visual as u64 {
                            let ghost old_ws = ws@;
                            ws.push(Self::keep_row(&row, &info, dy));
                            proof {
                                order = order.push(dy as int);
                                assert(order[before.len() as int] == dy);
                                assert forall|d: Seq<u8>, j: int|
                                    #![trigger reads(*read, d), order[j]]
                                    reads(*read, d) && 0 <= j < order.len() implies keeps_row(
                                    ws@[j + 1]@,
                                    d,
                                    info,
                                    order[j],
                                ) by {
                                    if j < before.len() {
                                        assert(order[j] == before[j]);
                                        assert(ws@[j + 1] == old_ws[j + 1]);
                                    }
                                }
                                assert forall|j: int| 0 <= j < order.len() implies beside_mark(
                                    (#[trigger] ws@[j + 1])@,
                                ) by {
                                    if j < before.len() {
                                        assert(ws@[j + 1] == old_ws[j + 1]);
                                    }
                                }
                            }
                        }
                        proof {
                            assert forall|y: int| #[trigger]
                                shown_by(info, i as int, dy + 1, y) implies order.contains(y) by {
                                if shown_by(info, i as int, dy as int, y) {
                                    assert(before.contains(y));
                                    let j = before.index_of(y);
                                    assert(order[j] == y);
                                } else {
                                    assert(y == dy);
                                    assert(order[order.len() - 1] == y);
                                }
                            }
                        }
                        dy += 1;
                    }
                    proof {
                        assert forall|y: int| #[trigger] shown_by(info, i + 1, 0, y) implies order.contains(
                            y,
                        ) by {
                            assert(shown_by(info, i as int, VIS_H as int, y));
                        }
                    }
                    i += 1;
                    if i >= info.bmp_h {
                        going = false;
                        proof {
                            assert forall|d: Seq<u8>, y: int|
                                #![trigger reads(*read, d), stored_row(info, y)]
                                reads(*read, d) && 0 <= y < VIS_H && row_there(
                                    d,
                                    info,
                                    stored_row(info, y),
                                ) implies order.contains(y) by {
                                assert(shown_by(info, i as int, 0, y));
                            }
                        }
                    }
                },
                None => {
                    going = false;
                    proof {
                        assert forall|d: Seq<u8>, y: int|
                            #![trigger reads(*read, d), stored_row(info, y)]
                            reads(*read, d) && 0 <= y < VIS_H && row_there(
                                d,
                                info,
                                stored_row(info, y),
                            ) implies order.contains(y) by {
                            if stored_row(info, y) >= i {
                                lemma_rows_end(d, info, i as int, stored_row(info, y));
                            }
                            assert(shown_by(info, i as int, 0, y));
                        }
                    }
                },
            }
        }
        let ghost rows = ws@;
        ws.push(finish_sleep_image_write());
        proof {
            let v = write_views(ws@);
            assert(v.last() == ws@[ws@.len() - 1]@);
            assert forall|k: int| 1 <= k < v.len() - 1 implies beside_mark(#[trigger] v[k]) by {
                assert(v[k] == rows[(k - 1) + 1]@);
            }
            assert forall|d: Seq<u8>| #[trigger] reads(*read, d) implies keeps_picture(
                v,
                d,
                info_of(d),
            ) by {
                assert forall|k: int| 1 <= k < v.len() - 1 implies keeps_some_row(
                    #[trigger] v[k],
                    d,
                    info,
                ) by {
                    assert(v[k] == rows[(k - 1) + 1]@);
                    let y = order[k - 1];
                    assert(keeps_row(v[k], d, info, y));
                }
                assert forall|dy: int|
                    0 <= dy < VIS_H && row_there(d, info, #[trigger] stored_row(info, dy)) implies exists|k: int|
                    1 <= k < v.len() - 1 && keeps_row(#[trigger] v[k], d, info, dy) by {
                    let j = order.index_of(dy);
                    assert(order[j] == dy);
                    assert(v[j + 1] == rows[j + 1]@);
                    assert(keeps_row(v[j + 1], d, info, dy));
                }
            }
        }
        Some(ws)
    }
}

/// The panel shows a picture upright, whichever way its rows are stored: of a file whose height is
/// below nought the first stored row is at the top, of any other at the bottom, and each row and
/// column of the panel shows the one that covers it. The wallpaper is kept the same way up.
pub proof fn law_pictures_are_shown_upright(info: BmpInfo, vx: int, vy: int)
    requires
        info.sound(),
        0 <= vx < VIS_W,
        0 <= vy < VIS_H,
    ensures
        ({
            let y = stored_row(info, vy);
            let top = if info.top_down {
                y
            } else {
                info.bmp_h - 1 - y
            };
            &&& 0 <= y < info.bmp_h
            &&& top * 400 <= vy * info.bmp_h < (top + 1) * 400
            &&& y == source_y(info, vy, 400)
        }),
        stored_row(info, 0) == (if info.top_down {
            0
        } else {
            info.bmp_h - 1
        }),
{
    lemma_covering(vy, info.bmp_h as int, 400);
    lemma_covering(0, info.bmp_h as int, 400);
    assert(0 * info.bmp_h == 0);
}

/// What a white panel shows at a place is the pixel of the file that lies there: in the stored row
/// that belongs to the height, and in the column that covers the place from the left.
pub proof fn law_shown_pixels_are_those_of_the_file(
    before: Seq<u8>,
    buf: Seq<u8>,
    data: Seq<u8>,
    info: BmpInfo,
    vx: int,
    vy: int,
    sx: int,
)
    requires
        info.sound(),
        drawn_over(before, buf, data, info),
        forall|px: int, py: int|
            0 <= px < PHYS_W && 0 <= py < PHYS_H ==> #[trigger] lit(before, PHYS_W as int, px, py),
        0 <= vx < VIS_W,
        0 <= vy < VIS_H,
        sx * 300 <= vx * info.bmp_w < (sx + 1) * 300,
        info.pixel_offset >= BMP_HEADER,
        info.pixel_offset + (stored_row(info, vy) + 1) * info.src_row_stride <= data.len(),
    ensures
        lit(buf, 400, 399 - vy, vx) == !dark(
            data.subrange(
                info.pixel_offset + stored_row(info, vy) * info.src_row_stride,
                info.pixel_offset + (stored_row(info, vy) + 1) * info.src_row_stride,
            ),
            0,
            info.bpp as int,
            sx,
        ),
{
    law_white_buffer_shows_the_picture(before, buf, data, info, vx, vy);
    lemma_covering(vx, info.bmp_w as int, 300);
    let q = vx * info.bmp_w / 300;
    assert(q == sx) by (nonlinear_arith)
        requires
            q * 300 <= vx * info.bmp_w < (q + 1) * 300,
            sx * 300 <= vx * info.bmp_w < (sx + 1) * 300,
    ;
}

/// The lines of the menu over a picture do what they say: back to the list, or set as wallpaper.
pub proof fn law_picture_menu_does_what_it_says(v: ImageView, i: u32)
    requires
        v.valid(),
        v.state.menu_state == (ImageMenuState::Popup { menu_index: i }),
    ensures
        ({
            let t = menu_label(i as int)[0];
            let a = after(v, EventType::KeyShort(3));
            &&& t == '返' || t == '设'
            &&& t == '返' <==> i == 0
            &&& t == '返' ==> !a.viewing && a.menu_state is Closed && a.save_wallpaper_flag
                == v.state.save_wallpaper_flag
            &&& t == '设' ==> a.save_wallpaper_flag && a.viewing == v.state.viewing
        }),
{
    reveal_strlit("返回列表");
    reveal_strlit("设置为壁纸");
}

/// The first key goes down the list and the second up; the third opens the picture that is chosen, or
/// leaves the page from the first line, which says so; held, it closes the picture or leaves.
pub proof fn law_keys_of_the_list(v: ImageView)
    requires
        v.valid(),
        v.menus is Some,
        v.state.menu_state is Closed,
    ensures
        ({
            let s = v.state;
            let n = v.count();
            &&& !s.viewing && s.choose_index < n ==> after(v, EventType::KeyShort(1)).choose_index
                == s.choose_index + 1
            &&& !s.viewing && s.choose_index > 0 ==> after(v, EventType::KeyShort(2)).choose_index
                == s.choose_index - 1
            &&& !s.viewing && 0 < s.choose_index <= n ==> after(v, EventType::KeyShort(3)).viewing
                && after(v, EventType::KeyShort(3)).loading && after(v, EventType::KeyShort(3)).running
                == s.running
            &&& !s.viewing && s.choose_index == 0 ==> !after(v, EventType::KeyShort(3)).running
            &&& s.viewing ==> after(v, EventType::KeyShort(3)).menu_state is Popup
            &&& s.viewing ==> !after(v, EventType::KeyLongEnd(3)).viewing && after(
                v,
                EventType::KeyLongEnd(3),
            ).running == s.running
            &&& !s.viewing ==> !after(v, EventType::KeyLongEnd(3)).running
            &&& 0 < s.choose_index < LIST_MAX && s.choose_index <= n ==> list_lines(v.menus->0)[s.choose_index as int]
                == v.menus->0[s.choose_index - 1]
        }),
{
}

/// The chosen line of the menu over a picture is white on black and marked, the other not.
pub proof fn law_chosen_line_is_marked(c: Seq<Op>, i: int)
    requires
        0 <= i < 2,
    ensures
        ({
            let a = menu_line(c, i, true);
            let b = menu_line(c, i, false);
            &&& a.len() == c.len() + 2 && b.len() == c.len() + 1
            &&& a[c.len() as int] matches Op::Fill(_, ink) && ink is Black
            &&& a.last() matches Op::Text(t, at) && at.ink is White && t[0] == '>'
            &&& b.last() matches Op::Text(t, at) && at.ink is Black && t[0] == ' '
        }),
{
    reveal_strlit("> ");
    reveal_strlit("  ");
}

/// A list holds its way out and as many pictures as there is room for, in their order.
pub proof fn law_list_holds_the_pictures(images: Seq<Seq<char>>, i: int)
    requires
        0 <= i < list_lines(images).len(),
    ensures
        images.len() < 20 ==> list_lines(images).len() == images.len() + 1,
        images.len() >= 20 ==> list_lines(images).len() == 20,
        i == 0 ==> list_lines(images)[i] == "退出"@,
        i > 0 ==> list_lines(images)[i] == images[i - 1],
{
}

/// A held key repeats with a pause where it scrolls, and a short press has none.
pub proof fn law_held_keys_pause(v: ImageView)
    ensures
        outcome(v, EventType::KeyShort(1)).delay_ms == 0,
        !v.state.viewing ==> outcome(v, EventType::KeyLongIng(1)).delay_ms == 200 && outcome(
            v,
            EventType::KeyLongIng(2),
        ).delay_ms == 200,
        v.state.viewing && v.state.menu_state is Closed ==> outcome(v, EventType::KeyLongIng(1)).delay_ms
            == 0,
        outcome(v, EventType::KeyShort(1)).refresh_active && outcome(v, EventType::KeyShort(3)).refresh_active,
{
}

} // verus!
