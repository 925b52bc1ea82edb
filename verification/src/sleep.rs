//! When the device goes to sleep.
use vstd::prelude::*;

verus! {

/// How the device sleeps.
#[derive(Clone, Copy, Debug, PartialEq, Eq, Structural)]
pub struct SleepPlan {
    /// After so many microseconds it wakes by itself; otherwise only a key wakes it.
    pub timer_us: Option<u64>,
    /// That it sleeps is shown first.
    pub show_sleep: bool,
}

/// The device sleeps once it was idle for longer than `idle_us`; never before anything was done.
pub fn to_sleep_tips(
    last_active_us: Option<u64>,
    now_us: u64,
    sleep_us: u64,
    idle_us: u64,
    show_sleep: bool,
) -> (plan: Option<SleepPlan>)
    requires
        last_active_us matches Some(t) ==> t <= now_us,
    ensures
        plan is Some <==> (last_active_us matches Some(t) && now_us - t > idle_us),
        plan matches Some(p) ==> p.show_sleep == show_sleep && p.timer_us == (if sleep_us > 0 {
            Some(sleep_us)
        } else {
            None
        }),
{
    match last_active_us {
        Some(t) => {
            if now_us - t > idle_us {
                let timer_us = if sleep_us > 0 {
                    Some(sleep_us)
                } else {
                    None
                };
                Some(SleepPlan { timer_us, show_sleep })
            } else {
                None
            }
        },
        None => None,
    }
}

/// Sleeps without showing it.
pub fn to_sleep(last_active_us: Option<u64>, now_us: u64, sleep_us: u64, idle_us: u64) -> (plan:
    Option<SleepPlan>)
    requires
        last_active_us matches Some(t) ==> t <= now_us,
    ensures
        plan is Some <==> (last_active_us matches Some(t) && now_us - t > idle_us),
        plan matches Some(p) ==> !p.show_sleep && p.timer_us == (if sleep_us > 0 {
            Some(sleep_us)
        } else {
            None
        }),
{
    to_sleep_tips(last_active_us, now_us, sleep_us, idle_us, false)
}

/// For how many milliseconds the device has slept.
pub fn get_sleep_ms(rtc_us: u64, when_sleep_ms: u64) -> (ms: u64)
    requires
        when_sleep_ms <= rtc_us / 1000,
    ensures
        ms == rtc_us / 1000 - when_sleep_ms,
{
    rtc_us / 1000 - when_sleep_ms
}

} // verus!
