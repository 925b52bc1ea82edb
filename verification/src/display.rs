//! How the panel is refreshed.
use vstd::prelude::*;
#[allow(unused_imports)]
use vstd::string::*;

use crate::draw::{Anchor, Canvas, Face, HPos, Ink, Op, VPos};

verus! {

/// A request to show what was drawn.
#[derive(Clone, Copy, Debug, PartialEq, Eq, Structural)]
pub struct RenderInfo {
    pub time: i32,
    /// The panel sleeps afterwards.
    pub need_sleep: bool,
}

/// The kinds of panels.
#[derive(Clone, Copy, Debug, PartialEq, Eq, Structural)]
pub enum Panel {
    /// A panel that is refreshed against the picture that it shows.
    Partial,
    /// A panel that is refreshed quickly or fully as a whole.
    Whole,
}

/// How often a panel is refreshed quickly before a full refresh, where nothing is configured.
pub open spec fn default_times(panel: Panel) -> u32 {
    match panel {
        Panel::Partial => 20,
        Panel::Whole => 5,
    }
}

/// How often a panel is refreshed quickly before a full refresh: as configured; where nothing was,
/// or the record was never written, as usual for the panel.
pub fn full_refresh_times(panel: Panel, configured: u32) -> (n: u32)
    ensures
        n == (if configured == 0 || configured == u32::MAX {
            default_times(panel)
        } else {
            configured
        }),
        n > 0,
{
    if configured == 0 || configured == u32::MAX {
        match panel {
            Panel::Partial => 20,
            Panel::Whole => 5,
        }
    } else {
        configured
    }
}

/// The state of the panel.
#[derive(Clone, Copy, Debug, PartialEq, Eq, Structural)]
pub struct Screen {
    pub panel: Panel,
    /// How many pictures were shown since they were last counted from nought.
    pub render_times: u32,
    /// Pictures are shown quickly.
    pub quick: bool,
    pub is_sleep: bool,
    /// The panel does not know the picture that it shows.
    pub need_base_map: bool,
    /// The picture that it shows was kept.
    pub prev_valid: bool,
}

/// How a picture is shown.
#[derive(Clone, Copy, Debug, PartialEq, Eq, Structural)]
pub enum Refresh {
    /// Fully, with the panel flashing; the picture becomes the one to refresh against.
    Base,
    /// As the one to refresh against, from the picture that was kept.
    QuietBase,
    /// Where it differs from the picture that is shown.
    Partial,
    /// As a whole, in the present mode.
    Whole,
    /// As a whole, with a full refresh, and quickly again from then on.
    FullOnce,
}

/// What is to be done to show a picture, in this order.
#[derive(Clone, Copy, Debug, PartialEq, Eq, Structural)]
pub struct RenderPlan {
    pub wake_up: bool,
    pub refresh: Refresh,
    /// The picture is kept.
    pub keep: bool,
    pub sleep: bool,
}

impl Screen {
    /// The state when the device starts, with the count from before its sleep.
    pub fn new(panel: Panel, render_times: u32) -> (s: Screen)
        ensures
            s == (Screen {
                panel,
                render_times,
                quick: true,
                is_sleep: false,
                need_base_map: true,
                prev_valid: false,
            }),
    {
        Screen {
            panel,
            render_times,
            quick: true,
            is_sleep: false,
            need_base_map: true,
            prev_valid: false,
        }
    }

    /// Counts a picture.
    pub fn add_render_times(self) -> (s: Screen)
        requires
            self.render_times < u32::MAX,
        ensures
            s == (Screen { render_times: (self.render_times + 1) as u32, ..self }),
    {
        Screen { render_times: self.render_times + 1, ..self }
    }

    /// How many pictures were counted.
    pub fn get_render_times(self) -> (n: u32)
        ensures
            n == self.render_times,
    {
        self.render_times
    }

    /// Counts from nought.
    pub fn reset_render_times(self) -> (s: Screen)
        ensures
            s == (Screen { render_times: 0, ..self }),
    {
        Screen { render_times: 0, ..self }
    }

    /// It is time for a full refresh, `n` being how often one comes.
    pub open spec fn full_due(self, n: int) -> bool {
        self.quick && match self.panel {
            Panel::Partial => self.render_times + 1 >= n,
            Panel::Whole => (self.render_times + 1) % n == 0,
        }
    }

    /// How the next picture is shown.
    pub open spec fn refresh(self, n: int) -> Refresh {
        match self.panel {
            Panel::Partial => if !self.quick {
                Refresh::Whole
            } else if self.full_due(n) {
                Refresh::Base
            } else if self.need_base_map || self.is_sleep {
                if self.prev_valid {
                    Refresh::QuietBase
                } else {
                    Refresh::Base
                }
            } else {
                Refresh::Partial
            },
            Panel::Whole => if self.full_due(n) {
                Refresh::FullOnce
            } else {
                Refresh::Whole
            },
        }
    }

    /// The state after a picture was shown.
    pub open spec fn rendered(self, info: RenderInfo, n: int) -> Screen {
        let partial = self.panel is Partial && self.quick;
        Screen {
            render_times: (if partial && self.full_due(n) {
                0
            } else {
                self.render_times + 1
            }) as u32,
            is_sleep: info.need_sleep,
            need_base_map: (self.need_base_map || self.is_sleep) && !partial,
            prev_valid: self.prev_valid || partial,
            ..self
        }
    }

    /// Shows a picture, `n` being how often a full refresh comes.
    pub fn render(self, info: RenderInfo, n: u32) -> (r: (Screen, RenderPlan))
        requires
            self.render_times < u32::MAX,
            n > 0,
        ensures
            r.0 == self.rendered(info, n as int),
            r.1 == (RenderPlan {
                wake_up: self.is_sleep,
                refresh: self.refresh(n as int),
                keep: self.panel is Partial && self.quick,
                sleep: info.need_sleep,
            }),
    {
        let s = self.add_render_times();
        let wake_up = s.is_sleep;
        let base = s.need_base_map || wake_up;
        let count: u32 = s.get_render_times();
        match s.panel {
            Panel::Partial => {
                if s.quick {
                    let due = count >= n;
                    let refresh = if due {
                        Refresh::Base
                    } else if base {
                        if s.prev_valid {
                            Refresh::QuietBase
                        } else {
                            Refresh::Base
                        }
                    } else {
                        Refresh::Partial
                    };
                    let s = if due {
                        s.reset_render_times()
                    } else {
                        s
                    };
                    let s = Screen {
                        need_base_map: false,
                        prev_valid: true,
                        is_sleep: info.need_sleep,
                        ..s
                    };
                    (s, RenderPlan { wake_up, refresh, keep: true, sleep: info.need_sleep })
                } else {
                    let s = Screen { need_base_map: base, is_sleep: info.need_sleep, ..s };
                    (
                        s,
                        RenderPlan {
                            wake_up,
                            refresh: Refresh::Whole,
                            keep: false,
                            sleep: info.need_sleep,
                        },
                    )
                }
            },
            Panel::Whole => {
                let refresh = if count % n == 0 && s.quick {
                    Refresh::FullOnce
                } else {
                    Refresh::Whole
                };
                let s = Screen { need_base_map: base, is_sleep: info.need_sleep, ..s };
                (s, RenderPlan { wake_up, refresh, keep: false, sleep: info.need_sleep })
            },
        }
    }

    /// Switches between quick and full refreshes.
    pub fn set_refresh_mode(self, quick: bool) -> (s: Screen)
        ensures
            s == (Screen { quick, need_base_map: true, ..self }),
    {
        Screen { quick, need_base_map: true, ..self }
    }
}

/// The state after `k` pictures in a row.
pub open spec fn shown(s: Screen, info: RenderInfo, n: int, k: int) -> Screen
    decreases k,
{
    if k <= 0 {
        s
    } else {
        shown(s, info, n, k - 1).rendered(info, n)
    }
}

/// While pictures are shown quickly, no more than `n` of them come before a full refresh: whatever
/// the count, one of the next `n` is a full one.
pub proof fn law_ghosts_are_cleared(s: Screen, info: RenderInfo, n: int)
    requires
        s.quick,
        n > 0,
        s.render_times + n < u32::MAX,
    ensures
        exists|k: int| 0 <= k < n && #[trigger] shown(s, info, n, k).full_due(n),
{
    let k: int = match s.panel {
        Panel::Partial => if s.render_times + 1 >= n {
            0
        } else {
            n - 1 - s.render_times
        },
        Panel::Whole => n - 1 - s.render_times as int % n,
    };
    assert(0 <= s.render_times as int % n < n) by (nonlinear_arith)
        requires
            n > 0,
    ;
    lemma_counts(s, info, n, k);
    if s.panel is Whole {
        let m = s.render_times as int;
        assert((m + (n - 1 - m % n) + 1) % n == 0) by (nonlinear_arith)
            requires
                n > 0,
                m >= 0,
        {
            assert(m == n * (m / n) + m % n);
            assert(m + (n - 1 - m % n) + 1 == n * (m / n + 1));
            vstd::arithmetic::div_mod::lemma_mod_multiples_basic(m / n + 1, n);
        }
    }
    assert(shown(s, info, n, k).full_due(n));
}

/// Until a full refresh is due the pictures are counted.
proof fn lemma_counts(s: Screen, info: RenderInfo, n: int, k: int)
    requires
        s.quick,
        n > 0,
        0 <= k <= n,
        s.render_times + n < u32::MAX,
        s.panel is Partial ==> (k == 0 || s.render_times + k < n),
    ensures
        shown(s, info, n, k).render_times == s.render_times + k,
        shown(s, info, n, k).quick,
        shown(s, info, n, k).panel == s.panel,
    decreases k,
{
    if k > 0 {
        lemma_counts(s, info, n, k - 1);
    }
}

/// A panel that slept is woken before it shows a picture, and sleeps afterwards where asked.
pub proof fn law_sleep_follows_requests(s: Screen, info: RenderInfo, next: RenderInfo, n: int)
    ensures
        s.rendered(info, n).is_sleep == info.need_sleep,
        s.rendered(info, n).rendered(next, n).is_sleep == next.need_sleep,
{
}

/// A message in the middle of the panel. The middle is given with its coordinates exchanged: the
/// panel is turned when it is shown.
pub open spec fn message_ops(c: Seq<Op>, text: Seq<char>, x: int, y: int) -> Seq<Op> {
    c.push(
        Op::Text(
            text,
            Anchor {
                x: x as i32,
                y: y as i32,
                v: VPos::Center,
                h: HPos::Center,
                ink: Ink::Black,
                face: Face::Wqy15,
            },
        ),
    )
}

/// The middle of a length.
pub open spec fn middle(n: int) -> int {
    if n == 0 {
        0
    } else {
        (n - 1) / 2
    }
}

fn middle_of(n: u32) -> (m: i32)
    requires
        n <= 0x4000_0000,
    ensures
        m == middle(n as int),
{
    if n == 0 {
        0
    } else {
        ((n - 1) / 2) as i32
    }
}

fn write_message(c: &mut Canvas, text: &str, x: i32, y: i32)
    ensures
        final(c)@ == message_ops(old(c)@, text@, x as int, y as int),
{
    c.label(
        text,
        Anchor {
            x,
            y,
            v: VPos::Center,
            h: HPos::Center,
            ink: Ink::Black,
            face: Face::Wqy15,
        },
    );
}

/// Draws an error, on a white panel where asked.
pub fn show_error(error: &str, need_clear: bool, w: u32, h: u32) -> (c: Canvas)
    requires
        w <= 0x4000_0000,
        h <= 0x4000_0000,
    ensures
        c@ == message_ops(
            if need_clear {
                seq![Op::Clear(Ink::White)]
            } else {
                seq![]
            },
            error@,
            middle(h as int),
            middle(w as int),
        ),
{
    let mut c = Canvas::new();
    assert(c@ =~= seq![]);
    if need_clear {
        c.clear(Ink::White);
        assert(c@ =~= seq![Op::Clear(Ink::White)]);
    }
    write_message(&mut c, error, middle_of(h), middle_of(w));
    c
}

/// What is shown in sleep.
#[derive(Clone, Copy, Debug, PartialEq, Eq, Structural)]
pub enum SleepShow {
    /// The page draws it over what is shown.
    Page,
    /// The stored picture, on a white panel; turned by a quarter where the panel is.
    Picture { rotate: bool },
}

/// What is shown in sleep: what the page draws, or else the stored picture.
pub fn show_sleep(panel: Panel, has_renderer: bool) -> (s: SleepShow)
    ensures
        s == (if has_renderer {
            SleepShow::Page
        } else {
            SleepShow::Picture { rotate: panel is Whole }
        }),
{
    if has_renderer {
        SleepShow::Page
    } else {
        SleepShow::Picture { rotate: matches!(panel, Panel::Whole) }
    }
}

/// What is drawn over the white panel in sleep where there is no picture.
pub fn sleep_message(drawn: bool, w: u32, h: u32) -> (c: Canvas)
    requires
        w <= 0x4000_0000,
        h <= 0x4000_0000,
    ensures
        c@ == (if drawn {
            seq![]
        } else {
            message_ops(seq![], "睡眠中"@, w as int / 2, h as int / 2)
        }),
{
    let mut c = Canvas::new();
    assert(c@ =~= seq![]);
    if !drawn {
        write_message(&mut c, "睡眠中", w as i32 / 2, h as i32 / 2);
    }
    c
}

/// A full refresh comes in its turn and no sooner: on a panel that refreshes in part once `n` pictures
/// were counted, on another with every `n`-th, and never while all refreshes are full anyway.
pub proof fn law_full_refresh_comes_in_its_turn(s: Screen, t: Screen, n: int)
    requires
        n > 0,
    ensures
        !s.quick ==> !s.full_due(n),
        s.quick && s.panel is Partial ==> (s.full_due(n) <==> s.render_times >= n - 1),
        s.quick && s.panel is Partial && !s.need_base_map && !s.is_sleep && s.render_times < n - 1
            ==> s.refresh(n) is Partial,
        s.quick && s.full_due(n) ==> s.refresh(n) is Base || s.refresh(n) is FullOnce,
        s.panel is Whole && !s.full_due(n) ==> s.refresh(n) is Whole,
        s.quick && t.quick && s.panel is Whole && t.panel is Whole && s.full_due(n) && t.full_due(n)
            && s.render_times <= t.render_times < s.render_times + n ==> s.render_times
            == t.render_times,
{
    if s.quick && t.quick && s.panel is Whole && t.panel is Whole && s.full_due(n) && t.full_due(n)
        && s.render_times <= t.render_times < s.render_times + n {
        let a = s.render_times + 1;
        let b = t.render_times + 1;
        assert(a == b) by (nonlinear_arith)
            requires
                a % n == 0,
                b % n == 0,
                a <= b < a + n,
                n > 0,
        ;
    }
}

/// A message stands in the middle of the panel: as much to its left as to its right, but for a pixel.
pub proof fn law_messages_stand_in_the_middle(n: int)
    requires
        n > 0,
    ensures
        0 <= (n - 1 - middle(n)) - middle(n) <= 1,
{
}

/// Without a setting a panel that refreshes in part is cleared after twenty pictures, another after
/// five.
pub proof fn law_panels_have_their_standard(p: Panel)
    ensures
        p is Partial ==> default_times(p) == 20,
        p is Whole ==> default_times(p) == 5,
{
}

} // verus!
