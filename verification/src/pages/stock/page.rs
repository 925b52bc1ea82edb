//! The stock page: the overview of all configured stocks and the chart of one.
use vstd::prelude::*;
#[allow(unused_imports)]
use vstd::string::*;

use crate::event::EventType;
use crate::model::stock::{ChartMode, MINUTE_SLOTS};
use crate::request::RequestError;

verus! {

/// How many stocks the overview shows at most.
pub const OVERVIEW_MAX: usize = 6;

/// The overview is not fetched again within this many milliseconds.
pub const REFETCH_MS: u64 = 120_000;

/// What the page shows.
#[derive(Clone, Copy, Debug, PartialEq, Eq, Structural)]
pub enum StockView {
    Overview,
    Detail,
}

/// What survives a restart of the device.
#[derive(Clone, Copy, Debug, PartialEq, Eq, Structural)]
pub struct StockRetained {
    pub mode: ChartMode,
    pub view: StockView,
    pub last_fetch_ms: u64,
}

/// The configured stocks: how many, and which is chosen.
#[derive(Clone, Copy, Debug, PartialEq, Eq, Structural)]
pub struct StockChoice {
    pub count: u8,
    pub selected: u8,
}

impl StockChoice {
    /// How many stocks the overview shows.
    pub open spec fn shown(self) -> int {
        if self.count <= OVERVIEW_MAX {
            self.count as int
        } else {
            OVERVIEW_MAX as int
        }
    }

    /// The chosen stock, within those that the overview shows.
    pub open spec fn shown_cursor(self) -> int {
        if self.shown() == 0 {
            0
        } else if self.selected < self.shown() {
            self.selected as int
        } else {
            self.shown() - 1
        }
    }

    /// The chosen stock, within those that are configured.
    pub open spec fn index(self) -> Option<int> {
        if self.count == 0 {
            None
        } else if self.selected < self.count {
            Some(self.selected as int)
        } else {
            Some(self.count - 1)
        }
    }
}

/// The stock page, without the prices.
#[derive(Clone, Copy, Debug, PartialEq, Eq, Structural)]
pub struct StockPage {
    pub running: bool,
    pub need_render: bool,
    /// Prices are to be fetched.
    pub need_fetch: bool,
    /// Prices are to be fetched even where they are known.
    pub force_fetch: bool,
    /// The page is to be drawn with a full refresh.
    pub need_clean_render: bool,
    pub mode: ChartMode,
    pub view: StockView,
    /// The chosen cell of the overview.
    pub cursor: usize,
    pub loading: bool,
    pub retained: StockRetained,
}

/// What the caller does after a key event.
#[derive(Clone, Copy, Debug, PartialEq, Eq, Structural)]
pub struct StockOutcome {
    /// The stock that is chosen from now on, to be written to flash.
    pub select: Option<u8>,
    /// The prices and the error that are shown are dropped.
    pub clear_data: bool,
}

/// Nothing to do.
pub open spec fn quiet() -> StockOutcome {
    StockOutcome { select: None, clear_data: false }
}

/// The page with the next kind of chart, or the one before. Bars from elsewhere are fetched; the
/// same bars are only drawn anew.
pub open spec fn mode_switched(s: StockPage, forward: bool) -> StockPage {
    let mode = if forward {
        s.mode.following()
    } else {
        s.mode.preceding()
    };
    let other = mode.bars_from() != s.mode.bars_from();
    StockPage {
        mode,
        retained: StockRetained { mode, ..s.retained },
        need_fetch: s.need_fetch || other,
        need_clean_render: s.need_clean_render || !other,
        ..s
    }
}

/// The next of the configured stocks; none where there are not two.
pub open spec fn stock_switched(c: StockChoice) -> Option<u8> {
    if c.count > 1 {
        Some(((c.index()->0 + 1) % (c.count as int)) as u8)
    } else {
        None
    }
}

/// The page with the next cell of the overview chosen, or the one before.
pub open spec fn cursor_moved(s: StockPage, n: int, forward: bool) -> StockPage {
    if n == 0 {
        s
    } else {
        StockPage {
            cursor: (if forward {
                (s.cursor + 1) % n
            } else {
                (s.cursor + n - 1) % n
            }) as usize,
            need_render: true,
            ..s
        }
    }
}

/// The page with the chosen stock opened.
pub open spec fn detail_entered(s: StockPage, n: int) -> StockPage {
    if n == 0 {
        s
    } else {
        StockPage {
            cursor: if s.cursor < n {
                s.cursor
            } else {
                (n - 1) as usize
            },
            mode: s.retained.mode,
            view: StockView::Detail,
            retained: StockRetained { view: StockView::Detail, ..s.retained },
            need_fetch: true,
            ..s
        }
    }
}

/// The page back at the overview, at the stock that was open.
pub open spec fn overview_entered(s: StockPage, c: StockChoice) -> StockPage {
    StockPage {
        view: StockView::Overview,
        retained: StockRetained { view: StockView::Overview, ..s.retained },
        cursor: c.shown_cursor() as usize,
        need_render: true,
        ..s
    }
}

/// The page after an event, with the configured stocks.
pub open spec fn after(s: StockPage, c: StockChoice, e: EventType) -> StockPage {
    let n = c.shown();
    if s.view is Overview {
        if e == EventType::KeyShort(1) || e == EventType::KeyLongEnd(1) {
            cursor_moved(s, n, false)
        } else if e == EventType::KeyShort(2) || e == EventType::KeyLongEnd(2) {
            cursor_moved(s, n, true)
        } else if e == EventType::KeyShort(3) {
            detail_entered(s, n)
        } else if e == EventType::KeyLongEnd(3) {
            StockPage {
                running: false,
                retained: StockRetained { view: StockView::Overview, ..s.retained },
                ..s
            }
        } else {
            s
        }
    } else {
        if e == EventType::KeyShort(1) {
            mode_switched(s, false)
        } else if e == EventType::KeyShort(2) {
            mode_switched(s, true)
        } else if e == EventType::KeyLongEnd(1) {
            StockPage { force_fetch: true, need_fetch: true, ..s }
        } else if e == EventType::KeyLongEnd(2) {
            StockPage { need_fetch: s.need_fetch || stock_switched(c) is Some, ..s }
        } else if e == EventType::KeyShort(3) {
            StockPage { need_fetch: true, ..s }
        } else if e == EventType::KeyLongEnd(3) {
            overview_entered(s, c)
        } else {
            s
        }
    }
}

/// What an event asks of the caller.
pub open spec fn outcome(s: StockPage, c: StockChoice, e: EventType) -> StockOutcome {
    if s.view is Overview && e == EventType::KeyShort(3) && c.shown() > 0 {
        StockOutcome {
            select: Some(detail_entered(s, c.shown()).cursor as u8),
            clear_data: true,
        }
    } else if s.view is Detail && e == EventType::KeyLongEnd(2) {
        StockOutcome { select: stock_switched(c), clear_data: false }
    } else {
        quiet()
    }
}

impl StockPage {
    /// The page before it is opened.
    pub fn new(retained: StockRetained) -> (s: StockPage)
        ensures
            s == (StockPage {
                running: false,
                need_render: false,
                need_fetch: false,
                force_fetch: false,
                need_clean_render: false,
                mode: ChartMode::Minute,
                view: StockView::Overview,
                cursor: 0,
                loading: false,
                retained,
            }),
    {
        StockPage {
            running: false,
            need_render: false,
            need_fetch: false,
            force_fetch: false,
            need_clean_render: false,
            mode: ChartMode::Minute,
            view: StockView::Overview,
            cursor: 0,
            loading: false,
            retained,
        }
    }

    /// The cursor lies among the cells that can be shown.
    pub open spec fn valid(self) -> bool {
        self.cursor < OVERVIEW_MAX
    }

    /// How many stocks the overview shows.
    pub fn overview_count(c: StockChoice) -> (n: usize)
        ensures
            n == c.shown(),
    {
        if (c.count as usize) < OVERVIEW_MAX {
            c.count as usize
        } else {
            OVERVIEW_MAX
        }
    }

    /// Shows the next kind of chart, or the one before; says whether its bars come from elsewhere.
    pub fn switch_mode(&mut self, forward: bool) -> (other: bool)
        ensures
            *final(self) == (StockPage {
                mode: mode_switched(*old(self), forward).mode,
                retained: mode_switched(*old(self), forward).retained,
                ..*old(self)
            }),
            other == (final(self).mode.bars_from() != old(self).mode.bars_from()),
    {
        let before = self.mode.source();
        let mode = if forward {
            self.mode.next()
        } else {
            self.mode.prev()
        };
        self.mode = mode;
        self.retained.mode = mode;
        mode.source() != before
    }

    /// The next of the configured stocks.
    pub fn switch_stock(c: StockChoice) -> (r: Option<u8>)
        ensures
            r == stock_switched(c),
    {
        if c.count > 1 {
            let cur: u8 = if c.selected < c.count {
                c.selected
            } else {
                c.count - 1
            };
            Some(((cur as u16 + 1) % c.count as u16) as u8)
        } else {
            None
        }
    }

    /// Chooses the next cell of the overview, or the one before.
    pub fn overview_move_cursor(&mut self, c: StockChoice, forward: bool)
        requires
            old(self).valid(),
        ensures
            *final(self) == cursor_moved(*old(self), c.shown(), forward),
            final(self).valid(),
    {
        let n: usize = Self::overview_count(c);
        if n == 0 {
            return;
        }
        self.cursor = if forward {
            (self.cursor + 1) % n
        } else {
            (self.cursor + n - 1) % n
        };
        self.need_render = true;
    }

    /// Opens the chosen stock.
    pub fn enter_detail(&mut self, c: StockChoice) -> (o: StockOutcome)
        requires
            old(self).valid(),
        ensures
            *final(self) == detail_entered(*old(self), c.shown()),
            o == (if c.shown() > 0 {
                StockOutcome { select: Some(final(self).cursor as u8), clear_data: true }
            } else {
                quiet()
            }),
            final(self).valid(),
    {
        let n: usize = Self::overview_count(c);
        if n == 0 {
            return StockOutcome { select: None, clear_data: false };
        }
        if self.cursor >= n {
            self.cursor = n - 1;
        }
        self.mode = self.retained.mode;
        self.view = StockView::Detail;
        self.retained.view = StockView::Detail;
        self.need_fetch = true;
        StockOutcome { select: Some(self.cursor as u8), clear_data: true }
    }

    /// Goes back to the overview.
    pub fn back_to_overview(&mut self, c: StockChoice)
        ensures
            *final(self) == overview_entered(*old(self), c),
            final(self).valid(),
    {
        self.view = StockView::Overview;
        self.retained.view = StockView::Overview;
        let n: usize = Self::overview_count(c);
        self.cursor = if n == 0 {
            0
        } else if (c.selected as usize) < n {
            c.selected as usize
        } else {
            n - 1
        };
        self.need_render = true;
    }

    /// Leaves the page; the next time it opens with the overview.
    pub fn back(&mut self)
        ensures
            *final(self) == (StockPage {
                running: false,
                retained: StockRetained {
                    view: StockView::Overview,
                    ..old(self).retained
                },
                ..*old(self)
            }),
    {
        self.retained.view = StockView::Overview;
        self.running = false;
    }

    /// Takes in a key event, with the configured stocks.
    pub fn handle_event(&mut self, c: StockChoice, e: EventType) -> (o: StockOutcome)
        requires
            old(self).valid(),
        ensures
            *final(self) == after(*old(self), c, e),
            o == outcome(*old(self), c, e),
            final(self).valid(),
    {
        let mut o = StockOutcome { select: None, clear_data: false };
        let overview: bool = self.view == StockView::Overview;
        if e == EventType::KeyShort(1) {
            if overview {
                self.overview_move_cursor(c, false);
            } else if self.switch_mode(false) {
                self.need_fetch = true;
            } else {
                self.need_clean_render = true;
            }
        } else if e == EventType::KeyShort(2) {
            if overview {
                self.overview_move_cursor(c, true);
            } else if self.switch_mode(true) {
                self.need_fetch = true;
            } else {
                self.need_clean_render = true;
            }
        } else if e == EventType::KeyLongEnd(1) {
            if overview {
                self.overview_move_cursor(c, false);
            } else {
                self.force_fetch = true;
                self.need_fetch = true;
            }
        } else if e == EventType::KeyLongEnd(2) {
            if overview {
                self.overview_move_cursor(c, true);
            } else {
                o.select = Self::switch_stock(c);
                if o.select.is_some() {
                    self.need_fetch = true;
                }
            }
        } else if e == EventType::KeyShort(3) {
            if overview {
                o = self.enter_detail(c);
            } else {
                self.need_fetch = true;
            }
        } else if e == EventType::KeyLongEnd(3) {
            if overview {
                self.back();
            } else {
                self.back_to_overview(c);
            }
        }
        o
    }
}

/// What happens when the page is opened.
#[derive(Clone, Copy, Debug, PartialEq, Eq, Structural)]
pub enum Opening {
    /// The prices of the open stock are fetched.
    FetchDetail,
    /// The overview is shown with the prices known.
    ShowOverview,
    /// The prices of the overview are fetched.
    FetchOverview,
}

/// What the caller does next.
#[derive(Clone, Copy, Debug, PartialEq, Eq, Structural)]
pub enum StockTask {
    Stop,
    FetchDetail,
    FetchOverview,
    /// The page is drawn with a full refresh.
    CleanRender,
    Render,
    Idle,
}

/// The difference of two counters of milliseconds, which go round.
pub open spec fn elapsed(now: u64, then_ms: u64) -> int {
    if now >= then_ms {
        now - then_ms
    } else {
        now - then_ms + 0x1_0000_0000_0000_0000
    }
}

/// The overview was fetched a short while ago.
pub open spec fn fetched_lately(now_ms: u64, last_ms: u64) -> bool {
    last_ms != 0 && elapsed(now_ms, last_ms) < REFETCH_MS
}

impl StockPage {
    /// Opens the page at the millisecond `now_ms`, where it was before a restart.
    pub fn start(&mut self, c: StockChoice, now_ms: u64) -> (r: Opening)
        ensures
            r == (if old(self).retained.view is Detail {
                Opening::FetchDetail
            } else if fetched_lately(now_ms, old(self).retained.last_fetch_ms) {
                Opening::ShowOverview
            } else {
                Opening::FetchOverview
            }),
            *final(self) == (match r {
                Opening::FetchDetail => StockPage {
                    running: true,
                    mode: old(self).retained.mode,
                    view: StockView::Detail,
                    ..*old(self)
                },
                _ => StockPage {
                    running: true,
                    mode: old(self).retained.mode,
                    view: StockView::Overview,
                    cursor: c.shown_cursor() as usize,
                    need_render: old(self).need_render || r == Opening::ShowOverview,
                    retained: StockRetained {
                        last_fetch_ms: if r == Opening::FetchOverview {
                            now_ms
                        } else {
                            old(self).retained.last_fetch_ms
                        },
                        ..old(self).retained
                    },
                    ..*old(self)
                },
            }),
    {
        self.running = true;
        self.mode = self.retained.mode;
        if self.retained.view == StockView::Detail {
            self.view = StockView::Detail;
            return Opening::FetchDetail;
        }
        self.view = StockView::Overview;
        let n: usize = Self::overview_count(c);
        self.cursor = if n == 0 {
            0
        } else if (c.selected as usize) < n {
            c.selected as usize
        } else {
            n - 1
        };
        let last: u64 = self.retained.last_fetch_ms;
        let since: u64 = if now_ms >= last {
            now_ms - last
        } else {
            u64::MAX - (last - now_ms) + 1
        };
        if last != 0 && since < REFETCH_MS {
            self.need_render = true;
            Opening::ShowOverview
        } else {
            self.retained.last_fetch_ms = now_ms;
            Opening::FetchOverview
        }
    }

    /// What the caller does next.
    pub fn take_task(&mut self) -> (t: StockTask)
        ensures
            t == (if !old(self).running {
                StockTask::Stop
            } else if old(self).need_fetch {
                if old(self).view is Detail {
                    StockTask::FetchDetail
                } else {
                    StockTask::FetchOverview
                }
            } else if old(self).need_clean_render {
                StockTask::CleanRender
            } else if old(self).need_render {
                StockTask::Render
            } else {
                StockTask::Idle
            }),
            *final(self) == (match t {
                StockTask::FetchDetail | StockTask::FetchOverview => StockPage {
                    need_fetch: false,
                    ..*old(self)
                },
                StockTask::CleanRender => StockPage {
                    need_clean_render: false,
                    need_render: false,
                    ..*old(self)
                },
                StockTask::Render => StockPage { need_render: false, ..*old(self) },
                _ => *old(self),
            }),
    {
        if !self.running {
            StockTask::Stop
        } else if self.need_fetch {
            self.need_fetch = false;
            if self.view == StockView::Detail {
                StockTask::FetchDetail
            } else {
                StockTask::FetchOverview
            }
        } else if self.need_clean_render {
            self.need_clean_render = false;
            self.need_render = false;
            StockTask::CleanRender
        } else if self.need_render {
            self.need_render = false;
            StockTask::Render
        } else {
            StockTask::Idle
        }
    }

    /// Notes that a fetch has begun; the page is drawn with that.
    pub fn begin_fetch(&mut self)
        ensures
            *final(self) == (StockPage { loading: true, need_render: true, ..*old(self) }),
    {
        self.loading = true;
        self.need_render = true;
    }

    /// Notes that a fetch is over, however it went. Only the fetch of one stock over the network
    /// answers a demand for new prices.
    pub fn end_fetch(&mut self, over_network: bool)
        ensures
            *final(self) == (StockPage {
                loading: false,
                need_render: true,
                force_fetch: old(self).force_fetch && !(over_network && old(self).view is Detail),
                ..*old(self)
            }),
    {
        self.loading = false;
        self.need_render = true;
        if over_network && self.view == StockView::Detail {
            self.force_fetch = false;
        }
    }

    /// Which stock is fetched: the chosen one, or none where the standard one is.
    pub fn fetch_index(c: StockChoice) -> (i: Option<usize>)
        ensures
            match i {
                Some(i) => c.index() == Some(i as int),
                None => c.index() is None,
            },
    {
        if c.count > 0 {
            if c.selected < c.count {
                Some(c.selected as usize)
            } else {
                Some(c.count as usize - 1)
            }
        } else {
            None
        }
    }

    /// Whether the prices of the day that are known may stand for a fetch.
    pub fn may_use_cache(&self, c: StockChoice) -> (b: bool)
        ensures
            b == (self.mode is Minute && !self.force_fetch && c.count > 0),
    {
        self.mode.is_minute() && !self.force_fetch && c.count > 0
    }

    /// How long the device sleeps before it looks at the prices again, and after how long without
    /// a key it does, in seconds.
    pub fn sleep_times(&self, stored_idle: u64) -> (r: (u64, u64))
        ensures
            r.0 == (if self.view is Overview || self.mode is Minute {
                120u64
            } else {
                43200u64
            }),
            r.1 == (if stored_idle > 0 {
                stored_idle
            } else {
                5
            }),
    {
        let wake: u64 = if self.view == StockView::Overview || self.mode.is_minute() {
            120
        } else {
            12 * 3600
        };
        let idle: u64 = if stored_idle > 0 {
            stored_idle
        } else {
            5
        };
        (wake, idle)
    }
}

/// How the prices of one stock of the overview are brought up to date.
#[derive(Clone, Copy, Debug, PartialEq, Eq, Structural)]
pub enum CachePlan {
    /// Nothing is fetched.
    Keep,
    /// The known prices are dropped, and the whole day and the last close are fetched.
    Full,
    /// So many of the latest bars are fetched.
    Latest(usize),
}

/// How the prices of one stock of the overview are brought up to date. They are only added to
/// where the clock is right, and they are of the same stock and of today.
pub open spec fn cache_plan(
    code_empty: bool,
    time_ok: bool,
    same_code: bool,
    cache_date: u64,
    today: u64,
    bars: int,
    slot: int,
) -> CachePlan {
    if code_empty {
        CachePlan::Keep
    } else if !(time_ok && same_code && cache_date == today) {
        CachePlan::Full
    } else if bars > 0 {
        let last = bars - 1;
        if slot <= last {
            CachePlan::Latest(MINUTE_SLOTS)
        } else {
            CachePlan::Latest((slot - last) as usize)
        }
    } else {
        CachePlan::Keep
    }
}

/// How the prices of one stock of the overview are brought up to date, where `bars` of today are
/// known and the current one is `slot`.
pub fn plan_cache(
    code: &str,
    time_ok: bool,
    same_code: bool,
    cache_date: u64,
    today: u64,
    bars: u8,
    slot: u8,
) -> (p: CachePlan)
    ensures
        p == cache_plan(
            code@.len() == 0,
            time_ok,
            same_code,
            cache_date,
            today,
            bars as int,
            slot as int,
        ),
{
    if code.is_empty() {
        return CachePlan::Keep;
    }
    if !(time_ok && same_code && cache_date == today) {
        return CachePlan::Full;
    }
    if bars > 0 {
        let last: u8 = bars - 1;
        if slot <= last {
            CachePlan::Latest(MINUTE_SLOTS)
        } else {
            CachePlan::Latest((slot - last) as usize)
        }
    } else {
        CachePlan::Keep
    }
}

/// Whether the clock can be trusted: it was set.
pub fn clock_is_set(year: i32) -> (b: bool)
    ensures
        b == (year >= 2024),
{
    year >= 2024
}

/// What the user is told of a failed request.
pub open spec fn reason(e: RequestError) -> Seq<char> {
    match e {
        RequestError::TlsError => "TLS握手失败"@,
        RequestError::DnsLookup => "DNS解析失败"@,
        RequestError::ConnectError => "连接失败"@,
        RequestError::TimeOut => "请求超时"@,
        RequestError::BufferOver => "响应过大"@,
        RequestError::UnsupportedScheme => "不支持协议"@,
        RequestError::PortParse => "端口错误"@,
        _ => "请求失败"@,
    }
}

/// What the user is told of a failed request.
pub fn reason_of(e: &RequestError) -> (s: &'static str)
    ensures
        s@ == reason(*e),
{
    match e {
        RequestError::TlsError => "TLS握手失败",
        RequestError::DnsLookup => "DNS解析失败",
        RequestError::ConnectError => "连接失败",
        RequestError::TimeOut => "请求超时",
        RequestError::BufferOver => "响应过大",
        RequestError::UnsupportedScheme => "不支持协议",
        RequestError::PortParse => "端口错误",
        _ => "请求失败",
    }
}

/// Why there is no network.
#[derive(Clone, Copy, Debug, PartialEq, Eq, Structural)]
pub enum WifiNetError {
    WaitConnecting,
    TimeOut,
    Infallible,
    Using,
}

/// What the user is told where there is no network.
pub fn wifi_err_msg(e: WifiNetError) -> (s: &'static str)
    ensures
        s@ == (match e {
            WifiNetError::WaitConnecting => "wifi启动超时"@,
            WifiNetError::TimeOut => "wifi连接超时"@,
            WifiNetError::Infallible => "wifi未就绪"@,
            WifiNetError::Using => "wifi忙"@,
        }),
{
    match e {
        WifiNetError::WaitConnecting => "wifi启动超时",
        WifiNetError::TimeOut => "wifi连接超时",
        WifiNetError::Infallible => "wifi未就绪",
        WifiNetError::Using => "wifi忙",
    }
}

/// Opening a stock and going back leads to the same cell of the overview.
pub proof fn law_back_to_the_same_stock(s: StockPage, c: StockChoice)
    requires
        s.valid(),
        s.view is Overview,
        s.cursor < c.shown(),
    ensures
        ({
            let chosen = StockChoice {
                selected: outcome(s, c, EventType::KeyShort(3)).select->0,
                ..c
            };
            let opened = after(s, c, EventType::KeyShort(3));
            let back = after(opened, chosen, EventType::KeyLongEnd(3));
            back.view is Overview && back.cursor == s.cursor
        }),
{
}

/// In the overview the first key goes back and the second on, round and round; the third opens the
/// chosen stock and has its prices fetched. Over a chart they turn to the chart before and after.
#[verifier::rlimit(50)]
pub proof fn law_keys_of_the_stocks(s: StockPage, c: StockChoice)
    requires
        s.valid(),
        s.cursor < c.shown(),
    ensures
        ({
            let n = c.shown();
            let back = after(s, c, EventType::KeyShort(1));
            let on = after(s, c, EventType::KeyShort(2));
            let enter = after(s, c, EventType::KeyShort(3));
            &&& s.view is Overview && s.cursor + 1 < n ==> on.cursor == s.cursor + 1
            &&& s.view is Overview && s.cursor + 1 == n ==> on.cursor == 0
            &&& s.view is Overview && s.cursor > 0 ==> back.cursor == s.cursor - 1
            &&& s.view is Overview && s.cursor == 0 ==> back.cursor == n - 1
            &&& s.view is Overview ==> enter.view is Detail && enter.need_fetch && enter.cursor
                == s.cursor && outcome(s, c, EventType::KeyShort(3)).select == Some(s.cursor as u8)
            &&& s.view is Detail ==> on.mode == s.mode.following() && back.mode == s.mode.preceding()
            &&& s.view is Detail && on.mode.scale() != s.mode.scale() ==> on.need_fetch
            &&& s.view is Detail ==> enter.need_fetch && after(s, c, EventType::KeyLongEnd(1)).force_fetch
            &&& s.view is Detail ==> after(s, c, EventType::KeyLongEnd(3)).view is Overview
            &&& s.view is Overview ==> !after(s, c, EventType::KeyLongEnd(3)).running
        }),
{
    let n = c.shown();
    assert(s.cursor + 1 < n ==> (s.cursor + 1) % n == s.cursor + 1) by (nonlinear_arith)
        requires
            s.cursor >= 0,
    ;
    assert(s.cursor + 1 == n ==> (s.cursor + 1) % n == 0) by (nonlinear_arith)
        requires
            n > 0,
    ;
    assert(s.cursor > 0 ==> (s.cursor + n - 1) % n == s.cursor - 1) by (nonlinear_arith)
        requires
            0 <= s.cursor < n,
    ;
    assert(s.cursor == 0 ==> (s.cursor + n - 1) % n == n - 1) by (nonlinear_arith)
        requires
            n > 0,
    ;
}

/// What is fetched for the overview reaches up to the current bar and no known one is fetched again
/// but the last; another day, another stock or a clock that is not set has all of it fetched.
pub proof fn law_plan_reaches_the_current_bar(
    time_ok: bool,
    same_code: bool,
    date: u64,
    today: u64,
    bars: int,
    slot: int,
)
    requires
        0 <= bars <= 48,
        0 <= slot < 48,
    ensures
        match cache_plan(false, time_ok, same_code, date, today, bars, slot) {
            CachePlan::Full => !time_ok || !same_code || date != today,
            CachePlan::Latest(n) => time_ok && same_code && date == today && bars > 0 && (slot >= bars
                ==> (bars - 1) + n == slot) && (slot < bars ==> n == 48),
            CachePlan::Keep => time_ok && same_code && date == today && bars == 0,
        },
        cache_plan(true, time_ok, same_code, date, today, bars, slot) is Keep,
{
}

/// The overview is not fetched again within two minutes, but always where it never was.
pub proof fn law_overview_waits_two_minutes(now: u64, last: u64)
    ensures
        fetched_lately(now, 0) == false,
        0 < last <= now ==> (fetched_lately(now, last) <==> now - last < 2 * 60 * 1000),
{
}

/// The next stock is the one behind the chosen, and the first behind the last; with fewer than two
/// there is none.
pub proof fn law_stocks_go_round(c: StockChoice)
    ensures
        c.count <= 1 ==> stock_switched(c) is None,
        c.count > 1 && c.selected + 1 < c.count ==> stock_switched(c) == Some((c.selected + 1) as u8),
        c.count > 1 && c.selected + 1 >= c.count ==> stock_switched(c) == Some(0u8),
        c.selected < c.count ==> c.index() == Some(c.selected as int),
        c.count > 0 && c.selected >= c.count ==> c.index() == Some(c.count - 1),
        c.count == 0 ==> c.index() is None,
        c.shown() <= 6,
        c.count <= 6 ==> c.shown() == c.count,
        c.count > 6 ==> c.shown() == 6,
{
    if c.count > 1 {
        let n = c.count as int;
        let i = c.index()->0;
        assert(i + 1 < n ==> (i + 1) % n == i + 1) by (nonlinear_arith)
            requires
                0 <= i,
        ;
        assert(i + 1 == n ==> (i + 1) % n == 0) by (nonlinear_arith)
            requires
                n > 0,
        ;
    }
}

} // verus!
