//! The timer and the statistics together: what a tick of the clock does to
//! both. The interface reads the clock, calls these, and then shows the
//! notification and plays the beep that the returned event asks for.

use vstd::prelude::*;
use crate::settings::PersistedSettings;
use crate::stats::{Calendar, PersistedStats, completion_step};
use crate::timer::{PersistedTimerState, TimerEvent};

verus! {

/// How the stats follow a timer event: a finished focus phase is a
/// completed session; any other event leaves them as they were.
pub open spec fn stats_follow(before: PersistedStats, ev: TimerEvent, cal: Calendar, after: PersistedStats) -> bool {
    match ev {
        TimerEvent::Finished(end) => if end.was_focus {
            completion_step(before, cal, after)
        } else {
            after == before
        },
        _ => after == before,
    }
}

fn settle(ev: TimerEvent, stats: &mut PersistedStats, cal: &Calendar)
    ensures
        stats_follow(*old(stats), ev, *cal, *final(stats)),
{
    if let TimerEvent::Finished(end) = ev {
        if end.was_focus {
            stats.record_focus_completion(cal);
        }
    }
}

/// One tick of the clock at `now_ms`, on `cal`'s day: the timer moves on,
/// and a focus phase that ends is recorded as a completed session.
pub fn advance(
    timer: &mut PersistedTimerState,
    stats: &mut PersistedStats,
    settings: &PersistedSettings,
    now_ms: u64,
    cal: &Calendar,
) -> (ev: TimerEvent)
    ensures
        (*final(timer), ev) == old(timer).tick_spec(*settings, now_ms),
        stats_follow(*old(stats), ev, *cal, *final(stats)),
{
    let ev = timer.tick(settings, now_ms);
    settle(ev, stats, cal);
    ev
}

/// Brings a restored timer up to date at `now_ms`, on `cal`'s day: a focus
/// phase that ended while the app was closed is recorded now.
pub fn resume(
    timer: &mut PersistedTimerState,
    stats: &mut PersistedStats,
    settings: &PersistedSettings,
    now_ms: u64,
    cal: &Calendar,
) -> (ev: TimerEvent)
    ensures
        (*final(timer), ev) == old(timer).catch_up_spec(*settings, now_ms),
        stats_follow(*old(stats), ev, *cal, *final(stats)),
{
    let ev = timer.catch_up(settings, now_ms);
    settle(ev, stats, cal);
    ev
}

} // verus!
