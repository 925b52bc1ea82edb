//! What the pages with the weather and the calendar watch for.
use vstd::prelude::*;
#[allow(unused_imports)]
use vstd::string::*;

use crate::text::same_text;

verus! {

/// What is shown of the time, the forecast and the holidays, and whether it is to be drawn anew.
pub struct Watch {
    pub need_render: bool,
    /// The time was not shown yet.
    pub wait_sync_time: bool,
    /// When the page was last drawn for the time's sake, in milliseconds.
    pub last_refresh_ms: u64,
    /// Which forecast is shown.
    pub weather_last_update: Option<String>,
    /// Which holidays are shown.
    pub holiday_sync_second: u64,
}

/// What the clock calls for.
#[derive(Clone, Copy, Debug, PartialEq, Eq, Structural)]
pub struct ClockSeen {
    /// The time is taken from the clock.
    pub take_time: bool,
    /// The device stays awake.
    pub stay_awake: bool,
}

impl Watch {
    /// Nothing shown, and nothing to be drawn.
    pub fn new() -> (w: Watch)
        ensures
            w == (Watch {
                need_render: false,
                wait_sync_time: true,
                last_refresh_ms: 0,
                weather_last_update: None,
                holiday_sync_second: 0,
            }),
    {
        Watch {
            need_render: false,
            wait_sync_time: true,
            last_refresh_ms: 0,
            weather_last_update: None,
            holiday_sync_second: 0,
        }
    }

    /// Nothing shown, and everything to be drawn.
    pub fn start(now_ms: u64) -> (w: Watch)
        ensures
            w == (Watch {
                need_render: true,
                wait_sync_time: true,
                last_refresh_ms: now_ms,
                weather_last_update: None,
                holiday_sync_second: 0,
            }),
    {
        Watch {
            need_render: true,
            wait_sync_time: true,
            last_refresh_ms: now_ms,
            weather_last_update: None,
            holiday_sync_second: 0,
        }
    }

    /// The page is drawn for the time's sake: once a minute where the time is known and at once when
    /// it becomes known, and every few seconds otherwise.
    pub open spec fn clock_due(self, now_ms: int, clock_known: bool) -> bool {
        let seconds = (now_ms - self.last_refresh_ms) / 1000;
        if clock_known {
            seconds > 60 || self.wait_sync_time
        } else {
            seconds > 5
        }
    }

    /// After a look at the clock.
    pub open spec fn clock_seen(self, now_ms: u64, clock_known: bool) -> Watch {
        if self.clock_due(now_ms as int, clock_known) {
            Watch {
                need_render: true,
                wait_sync_time: self.wait_sync_time && !clock_known,
                last_refresh_ms: now_ms,
                ..self
            }
        } else {
            self
        }
    }

    /// Looks at the clock. The time is taken from it where it is known and the page is drawn for its
    /// sake; where it is not known, the device stays awake.
    pub fn see_clock(&mut self, now_ms: u64, clock_known: bool) -> (seen: ClockSeen)
        requires
            old(self).last_refresh_ms <= now_ms,
        ensures
            *final(self) == old(self).clock_seen(now_ms, clock_known),
            seen.take_time == (clock_known && old(self).clock_due(now_ms as int, clock_known)),
            seen.stay_awake == !clock_known,
    {
        let seconds: u64 = (now_ms - self.last_refresh_ms) / 1000;
        let due = if clock_known {
            seconds > 60 || self.wait_sync_time
        } else {
            seconds > 5
        };
        if due {
            if clock_known {
                self.wait_sync_time = false;
            }
            self.need_render = true;
            self.last_refresh_ms = now_ms;
        }
        ClockSeen { take_time: clock_known && due, stay_awake: !clock_known }
    }

    /// The forecast with this update is the one that is shown.
    pub open spec fn shows(self, update: Seq<char>) -> bool {
        self.weather_last_update matches Some(u) && u@ == update
    }

    /// Looks at the forecast: another one is drawn. Where there is none, the device stays awake, and
    /// the page is drawn again after a second: the result says so.
    pub fn see_weather(&mut self, synced: bool, last_update: Option<&str>) -> (wait: bool)
        ensures
            wait == !synced,
            final(self).wait_sync_time == old(self).wait_sync_time,
            final(self).last_refresh_ms == old(self).last_refresh_ms,
            final(self).holiday_sync_second == old(self).holiday_sync_second,
            !synced ==> final(self).need_render && final(self).weather_last_update == old(
                self,
            ).weather_last_update,
            synced ==> match last_update {
                None => *final(self) == *old(self),
                Some(u) => final(self).shows(u@) && final(self).need_render == (old(
                    self,
                ).need_render || !old(self).shows(u@)),
            },
    {
        if !synced {
            self.need_render = true;
            return true;
        }
        if let Some(u) = last_update {
            let same = match &self.weather_last_update {
                Some(v) => same_text(v.as_str(), u),
                None => false,
            };
            if !same {
                let mut v = String::new();
                v.append(u);
                assert(v@ =~= u@);
                self.need_render = true;
                self.weather_last_update = Some(v);
            }
        }
        false
    }

    /// Looks at the holidays: others are drawn. Where there are none, the device stays awake, and the
    /// page is drawn again after a second: the result says so.
    pub fn see_holiday(&mut self, synced: bool, second: u64) -> (wait: bool)
        ensures
            wait == !synced,
            *final(self) == (if !synced {
                Watch { need_render: true, ..*old(self) }
            } else if second != old(self).holiday_sync_second {
                Watch { need_render: true, holiday_sync_second: second, ..*old(self) }
            } else {
                *old(self)
            }),
    {
        if !synced {
            self.need_render = true;
            true
        } else {
            if second != self.holiday_sync_second {
                self.need_render = true;
                self.holiday_sync_second = second;
            }
            false
        }
    }

    /// Whether the page is to be drawn; it then is.
    pub fn render(&mut self) -> (r: bool)
        ensures
            r == old(self).need_render,
            *final(self) == (Watch { need_render: false, ..*old(self) }),
    {
        let r = self.need_render;
        self.need_render = false;
        r
    }
}

/// What a page looks at in a pass of its loop.
#[derive(Clone, Copy)]
pub struct Sight<'a> {
    pub now_ms: u64,
    pub clock_known: bool,
    pub weather_synced: bool,
    /// When the stored forecast was made, where there is one.
    pub last_update: Option<&'a str>,
    pub holiday_synced: bool,
    pub holiday_second: u64,
}

/// What a pass calls for.
#[derive(Clone, Copy, Debug, PartialEq, Eq, Structural)]
pub struct Pass {
    /// The time is taken from the clock.
    pub take_time: bool,
    /// The device stays awake.
    pub stay_awake: bool,
    /// The page waits so long before it is drawn.
    pub wait_ms: u64,
    /// The page is drawn.
    pub render: bool,
}

/// What a pass calls for: the page waits a second for each of the forecast and the holidays that it
/// does not have, and is drawn where anything has changed or is missing.
pub open spec fn pass_of(w: Watch, s: Sight) -> Pass {
    Pass {
        take_time: s.clock_known && w.clock_due(s.now_ms as int, s.clock_known),
        stay_awake: !s.clock_known || !s.weather_synced || !s.holiday_synced,
        wait_ms: ((if s.weather_synced {
            0int
        } else {
            1000
        }) + (if s.holiday_synced {
            0int
        } else {
            1000
        })) as u64,
        render: {
            ||| w.need_render
            ||| w.clock_due(s.now_ms as int, s.clock_known)
            ||| !s.weather_synced
            ||| (s.last_update matches Some(u) && !w.shows(u@))
            ||| !s.holiday_synced
            ||| s.holiday_second != w.holiday_sync_second
        },
    }
}

/// What is shown after a pass.
pub open spec fn is_after_pass(a: Watch, w: Watch, s: Sight) -> bool {
    let due = w.clock_due(s.now_ms as int, s.clock_known);
    &&& !a.need_render
    &&& a.wait_sync_time == (w.wait_sync_time && !(due && s.clock_known))
    &&& a.last_refresh_ms == (if due {
        s.now_ms
    } else {
        w.last_refresh_ms
    })
    &&& match (s.weather_synced, s.last_update) {
        (true, Some(u)) => a.shows(u@),
        _ => a.weather_last_update == w.weather_last_update,
    }
    &&& a.holiday_sync_second == (if s.holiday_synced {
        s.holiday_second
    } else {
        w.holiday_sync_second
    })
}

impl Watch {
    /// Goes through a pass of a page's loop.
    pub fn pass(&mut self, s: Sight<'_>) -> (p: Pass)
        requires
            old(self).last_refresh_ms <= s.now_ms,
        ensures
            p == pass_of(*old(self), s),
            is_after_pass(*final(self), *old(self), s),
    {
        let seen = self.see_clock(s.now_ms, s.clock_known);
        let first = self.see_weather(s.weather_synced, s.last_update);
        let second = self.see_holiday(s.holiday_synced, s.holiday_second);
        let wait_ms: u64 = if first && second {
            2000
        } else if first || second {
            1000
        } else {
            0
        };
        let render = self.render();
        Pass {
            take_time: seen.take_time,
            stay_awake: seen.stay_awake || first || second,
            wait_ms,
            render,
        }
    }
}

/// A page that shows everything there is is not drawn again until something changes.
pub proof fn law_nothing_new_nothing_drawn(a: Watch, w: Watch, s: Sight, t: Sight)
    requires
        is_after_pass(a, w, s),
        s.clock_known && s.weather_synced && s.holiday_synced,
        s.last_update is Some,
        t == (Sight { now_ms: t.now_ms, ..s }),
        w.last_refresh_ms <= s.now_ms <= t.now_ms,
        t.now_ms - a.last_refresh_ms < 61_000,
    ensures
        !pass_of(a, t).render,
{
}

/// After how many idle seconds a page sleeps, once the time and the forecast are known.
pub fn weather_sleep_seconds(time_synced: bool, weather_synced: bool, configured: u64) -> (s:
    Option<u64>)
    ensures
        s == (if !(time_synced && weather_synced) {
            None
        } else if configured > 0 {
            Some(configured)
        } else {
            Some(5u64)
        }),
{
    if !(time_synced && weather_synced) {
        None
    } else if configured > 0 {
        Some(configured)
    } else {
        Some(5)
    }
}

/// A page that was just drawn for the time's sake is not drawn for it again within a minute.
pub proof fn law_drawn_once_a_minute(w: Watch, now_ms: u64, later_ms: u64)
    requires
        w.last_refresh_ms <= now_ms <= later_ms,
        w.clock_due(now_ms as int, true),
        later_ms - now_ms < 61_000,
    ensures
        !w.clock_seen(now_ms, true).clock_due(later_ms as int, true),
{
}

/// What changed is drawn: another forecast, other holidays, a clock that is a minute on, or a clock
/// that is awaited and has come; and while anything is missing the page is drawn and stays awake.
pub proof fn law_changes_are_drawn(w: Watch, s: Sight)
    requires
        w.last_refresh_ms <= s.now_ms,
    ensures
        s.clock_known && s.now_ms - w.last_refresh_ms >= 61_000 ==> pass_of(w, s).render && pass_of(
            w,
            s,
        ).take_time,
        s.clock_known && w.wait_sync_time ==> pass_of(w, s).render && pass_of(w, s).take_time,
        !s.clock_known && s.now_ms - w.last_refresh_ms < 6_000 ==> !w.clock_due(
            s.now_ms as int,
            false,
        ),
        !s.clock_known ==> !pass_of(w, s).take_time && pass_of(w, s).stay_awake,
        s.holiday_second != w.holiday_sync_second ==> pass_of(w, s).render,
        s.last_update matches Some(u) ==> (w.weather_last_update matches Some(v) ==> u@ != v@ ==> pass_of(
            w,
            s,
        ).render),
        !s.weather_synced || !s.holiday_synced ==> pass_of(w, s).render && pass_of(w, s).stay_awake
            && pass_of(w, s).wait_ms >= 1000,
        s.weather_synced && s.holiday_synced ==> pass_of(w, s).wait_ms == 0,
{
}

/// After a pass the page knows what it has shown: it is not drawn again for the same forecast or
/// holidays, and the minute counts from the time that was taken.
pub proof fn law_what_was_shown_is_remembered(a: Watch, w: Watch, s: Sight)
    requires
        is_after_pass(a, w, s),
        w.last_refresh_ms <= s.now_ms,
    ensures
        !a.need_render,
        pass_of(w, s).take_time ==> a.last_refresh_ms == s.now_ms && !a.wait_sync_time,
        s.clock_known && !pass_of(w, s).take_time ==> a.last_refresh_ms == w.last_refresh_ms
            && a.wait_sync_time == w.wait_sync_time,
        s.holiday_synced ==> a.holiday_sync_second == s.holiday_second,
        !s.holiday_synced ==> a.holiday_sync_second == w.holiday_sync_second,
        s.weather_synced ==> (s.last_update matches Some(u) ==> (a.weather_last_update matches Some(v)
            && v@ == u@)),
        !s.weather_synced ==> a.weather_last_update == w.weather_last_update,
{
}

} // verus!
