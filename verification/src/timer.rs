//! The countdown: focus and break phases, rounds, start and pause, and what
//! happens on each clock tick. Times are milliseconds since the epoch, as the
//! browser's clock gives them.

use vstd::prelude::*;
use vstd::string::*;
use crate::text::{decimal, decimal_text, zero_pad, zero_padded};
use crate::settings::{PersistedSettings, minutes_as_secs, phase_length, focus_secs, break_secs, phase_secs};

verus! {

/// The state of the countdown, as it is kept between sessions.
#[derive(Clone, Copy, Debug, PartialEq, Eq, Structural)]
pub struct PersistedTimerState {
    /// Seconds left in the current phase, as last shown.
    pub time_remaining: u32,
    pub is_running: bool,
    /// Whether the current phase is a focus phase (else a break).
    pub is_focus: bool,
    /// The round counter, counting from 1; a round ends with its break.
    pub current_round: u32,
    /// When the running phase ends, in milliseconds since the epoch.
    pub target_end_ms: Option<u64>,
    /// Whether the timer was ever started since it was first created.
    pub has_started: bool,
}

/// What the end of a phase asks of the interface.
#[derive(Clone, Copy, Debug, PartialEq, Eq, Structural)]
pub struct PhaseEnd {
    /// The phase that ended was a focus phase: a session to record.
    pub was_focus: bool,
    /// Show a notification.
    pub notify: bool,
    /// Play the beep.
    pub beep: bool,
}

/// What a tick of the clock did.
#[derive(Clone, Copy, Debug, PartialEq, Eq, Structural)]
pub enum TimerEvent {
    /// The timer is not running: nothing changed.
    Idle,
    /// The timer ran without a deadline: one was set.
    Scheduled,
    /// The phase goes on; the seconds left were brought up to date.
    Counting,
    /// The phase is over: the next one was entered.
    Finished(PhaseEnd),
}

/// `x`, but at least 1 (`x.max(1)`).
pub open spec fn at_least_one(x: u32) -> u32 {
    if x == 0 { 1 } else { x }
}

/// `x + 1`, held at `u32::MAX`.
pub open spec fn bumped(x: u32) -> u32 {
    if x == u32::MAX { x } else { (x + 1) as u32 }
}

/// The moment `secs` seconds after `now_ms`, held at `u64::MAX`.
pub open spec fn deadline_after(now_ms: u64, secs: u32) -> u64 {
    if now_ms + secs * 1000 > u64::MAX {
        u64::MAX
    } else {
        (now_ms + secs * 1000) as u64
    }
}

/// Whole seconds needed to cover `ms` milliseconds, rounded up and held at
/// `u32::MAX`.
pub open spec fn seconds_to_cover(ms: u64) -> u32 {
    if (ms + 999) / 1000 > u32::MAX {
        u32::MAX
    } else {
        ((ms + 999) / 1000) as u32
    }
}

/// What the interface shows as the end of a phase of the given kind.
pub open spec fn phase_end_for(was_focus: bool, settings: PersistedSettings) -> PhaseEnd {
    PhaseEnd {
        was_focus,
        notify: settings.notifications_enabled,
        beep: settings.sound_enabled,
    }
}

fn at_least_one_of(x: u32) -> (r: u32)
    ensures
        r == at_least_one(x),
{
    if x == 0 { 1 } else { x }
}

fn deadline(now_ms: u64, secs: u32) -> (r: u64)
    ensures
        r == deadline_after(now_ms, secs),
{
    now_ms.saturating_add(secs as u64 * 1000)
}

fn seconds_left(ms: u64) -> (r: u32)
    requires
        ms > 0,
    ensures
        r == seconds_to_cover(ms),
{
    let s = (ms - 1) / 1000 + 1;
    assert(s == (ms + 999) / 1000) by (nonlinear_arith)
        requires
            ms > 0,
            s == (ms - 1) / 1000 + 1,
    ;
    if s > 4294967295 { u32::MAX } else { s as u32 }
}

impl PersistedTimerState {
    /// Every state the timer reaches once restored: something left to count
    /// down, a round counter from 1, and no run before a first start.
    pub open spec fn is_consistent(self) -> bool {
        &&& self.time_remaining >= 1
        &&& self.current_round >= 1
        &&& self.is_running ==> self.has_started
    }

    /// A consistent state in which the timer runs exactly when it has a
    /// deadline: what every step keeps once the app has started up.
    pub open spec fn is_settled(self) -> bool {
        &&& self.is_consistent()
        &&& self.is_running <==> self.target_end_ms is Some
    }

    /// A running timer counts as started.
    pub open spec fn noted(self) -> Self {
        if self.is_running {
            PersistedTimerState { has_started: true, ..self }
        } else {
            self
        }
    }

    /// The timer as first created: a full focus phase of round 1, paused.
    pub open spec fn fresh_spec(settings: PersistedSettings) -> Self {
        PersistedTimerState {
            time_remaining: minutes_as_secs(settings.focus_mins),
            is_running: false,
            is_focus: true,
            current_round: 1,
            target_end_ms: None,
            has_started: false,
        }
    }

    /// A saved state made fit to resume.
    pub open spec fn restored_spec(self) -> Self {
        PersistedTimerState {
            time_remaining: at_least_one(self.time_remaining),
            current_round: at_least_one(self.current_round),
            has_started: self.has_started || self.is_running,
            ..self
        }
    }

    /// The start/pause button: a running timer pauses and forgets its
    /// deadline; a paused one starts with a deadline that covers the
    /// seconds left.
    pub open spec fn toggled(self, now_ms: u64) -> Self {
        if self.is_running {
            PersistedTimerState { is_running: false, target_end_ms: None, ..self }
        } else {
            PersistedTimerState {
                target_end_ms: Some(deadline_after(now_ms, at_least_one(self.time_remaining))),
                is_running: true,
                has_started: true,
                ..self
            }
        }
    }

    /// The reset button: paused, with the full length of the current phase.
    pub open spec fn reset_spec(self, settings: PersistedSettings) -> Self {
        PersistedTimerState {
            is_running: false,
            target_end_ms: None,
            time_remaining: at_least_one(phase_length(settings, self.is_focus)),
            ..self
        }
    }

    /// The focus/break switch: paused, at the start of a phase of the
    /// chosen kind.
    pub open spec fn with_mode(self, settings: PersistedSettings, focus: bool) -> Self {
        PersistedTimerState {
            is_running: false,
            target_end_ms: None,
            is_focus: focus,
            time_remaining: at_least_one(phase_length(settings, focus)),
            ..self
        }
    }

    /// New phase lengths reach a paused timer at once; a running one keeps
    /// its countdown.
    pub open spec fn after_settings_change(self, settings: PersistedSettings) -> Self {
        if self.is_running {
            self
        } else {
            PersistedTimerState {
                time_remaining: at_least_one(phase_length(settings, self.is_focus)),
                target_end_ms: None,
                ..self
            }
        }
    }

    /// The state entered when the current phase ends at `now_ms`: the other
    /// kind of phase, at its full length; the round counter moves on when a
    /// break ends; the next phase runs at once only with automatic start.
    pub open spec fn next_phase(self, settings: PersistedSettings, now_ms: u64) -> Self {
        let secs = phase_length(settings, !self.is_focus);
        PersistedTimerState {
            time_remaining: at_least_one(secs),
            is_running: settings.auto_start_next,
            is_focus: !self.is_focus,
            current_round: if self.is_focus { self.current_round } else { bumped(self.current_round) },
            target_end_ms: if settings.auto_start_next {
                Some(deadline_after(now_ms, secs))
            } else {
                None
            },
            has_started: self.has_started,
        }
    }

    /// A running timer without a deadline gets one that covers the seconds
    /// left.
    pub open spec fn scheduled(self, now_ms: u64) -> Self {
        PersistedTimerState {
            target_end_ms: Some(deadline_after(now_ms, at_least_one(self.time_remaining))),
            ..self
        }
    }

    /// One tick of the clock at `now_ms`.
    pub open spec fn tick_spec(self, settings: PersistedSettings, now_ms: u64) -> (Self, TimerEvent) {
        if !self.is_running {
            (self, TimerEvent::Idle)
        } else {
            match self.target_end_ms {
                None => (self.scheduled(now_ms), TimerEvent::Scheduled),
                Some(target) => if now_ms >= target {
                    (self.next_phase(settings, now_ms), TimerEvent::Finished(phase_end_for(self.is_focus, settings)))
                } else {
                    (
                        PersistedTimerState {
                            time_remaining: at_least_one(seconds_to_cover((target - now_ms) as u64)),
                            ..self
                        },
                        TimerEvent::Counting,
                    )
                },
            }
        }
    }

    /// Bringing a restored timer up to date at `now_ms`: like a tick, but
    /// a phase that is still running keeps the seconds it had.
    pub open spec fn catch_up_spec(self, settings: PersistedSettings, now_ms: u64) -> (Self, TimerEvent) {
        if !self.is_running {
            (self, TimerEvent::Idle)
        } else {
            match self.target_end_ms {
                None => (self.scheduled(now_ms), TimerEvent::Scheduled),
                Some(target) => if target <= now_ms {
                    (self.next_phase(settings, now_ms), TimerEvent::Finished(phase_end_for(self.is_focus, settings)))
                } else {
                    (self, TimerEvent::Counting)
                },
            }
        }
    }

    /// The timer as first created, before any saved state exists.
    pub fn fresh(settings: &PersistedSettings) -> (t: Self)
        ensures
            t == Self::fresh_spec(*settings),
    {
        PersistedTimerState {
            time_remaining: focus_secs(settings),
            is_running: false,
            is_focus: true,
            current_round: 1,
            target_end_ms: None,
            has_started: false,
        }
    }

    /// Makes a saved state fit to resume: at least one second left, a round
    /// counter from 1, and marked as started if it was running.
    pub fn restored(self) -> (t: Self)
        ensures
            t == self.restored_spec(),
            t.is_consistent(),
    {
        PersistedTimerState {
            time_remaining: at_least_one_of(self.time_remaining),
            current_round: at_least_one_of(self.current_round),
            has_started: self.has_started || self.is_running,
            ..self
        }
    }

    /// Starts a paused timer or pauses a running one.
    pub fn toggle(&mut self, now_ms: u64)
        ensures
            *final(self) == old(self).toggled(now_ms),
    {
        if self.is_running {
            self.is_running = false;
            self.target_end_ms = None;
        } else {
            let secs = at_least_one_of(self.time_remaining);
            self.target_end_ms = Some(deadline(now_ms, secs));
            self.is_running = true;
            self.has_started = true;
        }
    }

    /// Pauses and rewinds the current phase to its full length.
    pub fn reset(&mut self, settings: &PersistedSettings)
        ensures
            *final(self) == old(self).reset_spec(*settings),
    {
        self.is_running = false;
        self.target_end_ms = None;
        let next = phase_secs(settings, self.is_focus);
        self.time_remaining = at_least_one_of(next);
    }

    /// Pauses and switches to the start of a focus phase.
    pub fn set_focus_mode(&mut self, settings: &PersistedSettings)
        ensures
            *final(self) == old(self).with_mode(*settings, true),
    {
        self.is_running = false;
        self.target_end_ms = None;
        self.is_focus = true;
        self.time_remaining = at_least_one_of(focus_secs(settings));
    }

    /// Pauses and switches to the start of a break.
    pub fn set_break_mode(&mut self, settings: &PersistedSettings)
        ensures
            *final(self) == old(self).with_mode(*settings, false),
    {
        self.is_running = false;
        self.target_end_ms = None;
        self.is_focus = false;
        self.time_remaining = at_least_one_of(break_secs(settings));
    }

    /// Applies new phase lengths to a paused timer.
    pub fn apply_settings(&mut self, settings: &PersistedSettings)
        ensures
            *final(self) == old(self).after_settings_change(*settings),
    {
        if self.is_running {
            return;
        }
        let next = phase_secs(settings, self.is_focus);
        self.time_remaining = at_least_one_of(next);
        self.target_end_ms = None;
    }

    /// A running timer counts as started.
    pub fn note_running(&mut self)
        ensures
            *final(self) == old(self).noted(),
    {
        if self.is_running {
            self.has_started = true;
        }
    }

    fn enter_next_phase(&mut self, settings: &PersistedSettings, now_ms: u64) -> (ev: TimerEvent)
        ensures
            *final(self) == old(self).next_phase(*settings, now_ms),
            ev == TimerEvent::Finished(phase_end_for(old(self).is_focus, *settings)),
    {
        let was_focus = self.is_focus;
        self.is_running = false;
        self.target_end_ms = None;
        self.time_remaining = 0;
        let next_secs = if was_focus {
            self.is_focus = false;
            break_secs(settings)
        } else {
            self.is_focus = true;
            self.current_round = self.current_round.saturating_add(1);
            focus_secs(settings)
        };
        self.time_remaining = at_least_one_of(next_secs);
        if settings.auto_start_next {
            self.target_end_ms = Some(deadline(now_ms, next_secs));
            self.is_running = true;
        }
        TimerEvent::Finished(PhaseEnd {
            was_focus,
            notify: settings.notifications_enabled,
            beep: settings.sound_enabled,
        })
    }

    /// One tick of the clock at `now_ms`: a paused timer stays as it is; a
    /// running one without a deadline gets one; a phase whose deadline has
    /// come ends and the next one is entered; otherwise the seconds left are
    /// brought up to date.
    pub fn tick(&mut self, settings: &PersistedSettings, now_ms: u64) -> (ev: TimerEvent)
        ensures
            (*final(self), ev) == old(self).tick_spec(*settings, now_ms),
    {
        if !self.is_running {
            return TimerEvent::Idle;
        }
        match self.target_end_ms {
            None => {
                let secs = at_least_one_of(self.time_remaining);
                self.target_end_ms = Some(deadline(now_ms, secs));
                TimerEvent::Scheduled
            },
            Some(target) => {
                if now_ms >= target {
                    self.enter_next_phase(settings, now_ms)
                } else {
                    let remaining = seconds_left(target - now_ms);
                    self.time_remaining = at_least_one_of(remaining);
                    TimerEvent::Counting
                }
            },
        }
    }

    /// Brings a restored timer up to date at `now_ms`: a phase whose
    /// deadline passed while the app was closed ends now.
    pub fn catch_up(&mut self, settings: &PersistedSettings, now_ms: u64) -> (ev: TimerEvent)
        ensures
            (*final(self), ev) == old(self).catch_up_spec(*settings, now_ms),
    {
        if !self.is_running {
            return TimerEvent::Idle;
        }
        match self.target_end_ms {
            None => {
                let secs = at_least_one_of(self.time_remaining);
                self.target_end_ms = Some(deadline(now_ms, secs));
                TimerEvent::Scheduled
            },
            Some(target) => {
                if target <= now_ms {
                    self.enter_next_phase(settings, now_ms)
                } else {
                    TimerEvent::Counting
                }
            },
        }
    }
}


/// When a running phase reaches its deadline, the tick ends it: the other
/// kind of phase comes next, at its full length in seconds (minutes times
/// 60, at least 1, held at `u32::MAX`); the round counter goes up by one
/// (held at `u32::MAX`) exactly when a break ended; the next phase runs, with
/// a deadline that many seconds later, only with automatic start, and is
/// otherwise paused without a deadline, whichever kind of phase ended; the
/// event names the phase that ended and asks for the notification and beep
/// as the settings say. Catching up after a restart does the same.
pub proof fn lemma_phase_end(t: PersistedTimerState, settings: PersistedSettings, now_ms: u64)
    requires
        t.is_running,
        t.target_end_ms is Some,
        t.target_end_ms->0 <= now_ms,
    ensures
        ({
            let mins: int = if t.is_focus { settings.break_mins as int } else { settings.focus_mins as int };
            let secs: int = if mins * 60 > u32::MAX { u32::MAX as int } else { mins * 60 };
            let (n, ev) = t.tick_spec(settings, now_ms);
            &&& t.catch_up_spec(settings, now_ms) == (n, ev)
            &&& ev == TimerEvent::Finished(PhaseEnd {
                was_focus: t.is_focus,
                notify: settings.notifications_enabled,
                beep: settings.sound_enabled,
            })
            &&& n.is_focus == !t.is_focus
            &&& n.time_remaining == if secs == 0 { 1 } else { secs }
            &&& n.current_round == if t.is_focus {
                t.current_round as int
            } else if t.current_round == u32::MAX {
                u32::MAX as int
            } else {
                t.current_round + 1
            }
            &&& n.has_started == t.has_started
            &&& !settings.auto_start_next ==> !n.is_running && n.target_end_ms is None
            &&& settings.auto_start_next ==> n.is_running && n.target_end_ms == Some(
                if now_ms + secs * 1000 > u64::MAX { u64::MAX } else { (now_ms + secs * 1000) as u64 },
            )
        }),
{
}

/// Reset pauses the timer without a deadline and rewinds it to the full
/// length of the kind of phase it is in: the focus length during a focus
/// phase, the break length during a break (minutes times 60, at least 1,
/// held at `u32::MAX`); the kind of phase, the round and the started mark
/// stay.
pub proof fn lemma_reset_rewinds_current_phase(t: PersistedTimerState, settings: PersistedSettings)
    ensures
        ({
            let mins: int = if t.is_focus { settings.focus_mins as int } else { settings.break_mins as int };
            let secs: int = if mins * 60 > u32::MAX { u32::MAX as int } else { mins * 60 };
            let n = t.reset_spec(settings);
            &&& !n.is_running
            &&& n.target_end_ms is None
            &&& n.is_focus == t.is_focus
            &&& n.current_round == t.current_round
            &&& n.has_started == t.has_started
            &&& n.time_remaining == if secs == 0 { 1 } else { secs }
        }),
{
}

/// A change of settings rewinds a paused timer to the new full length of the
/// kind of phase it is in (focus length in focus, break length in a break,
/// minutes times 60, at least 1, held at `u32::MAX`) and clears its deadline,
/// keeping its kind, round and started mark; a running timer is left as it
/// is.
pub proof fn lemma_settings_change(t: PersistedTimerState, settings: PersistedSettings)
    ensures
        ({
            let mins: int = if t.is_focus { settings.focus_mins as int } else { settings.break_mins as int };
            let secs: int = if mins * 60 > u32::MAX { u32::MAX as int } else { mins * 60 };
            let n = t.after_settings_change(settings);
            &&& t.is_running ==> n == t
            &&& !t.is_running ==> {
                &&& !n.is_running
                &&& n.target_end_ms is None
                &&& n.is_focus == t.is_focus
                &&& n.current_round == t.current_round
                &&& n.has_started == t.has_started
                &&& n.time_remaining == if secs == 0 { 1 } else { secs }
            }
        }),
{
}

/// Switching to focus or break mode pauses the timer without a deadline at
/// the full length of the chosen kind of phase (minutes times 60, at least
/// 1, held at `u32::MAX`); the round counter and the started mark stay.
pub proof fn lemma_mode_switch(t: PersistedTimerState, settings: PersistedSettings, focus: bool)
    ensures
        ({
            let mins: int = if focus { settings.focus_mins as int } else { settings.break_mins as int };
            let secs: int = if mins * 60 > u32::MAX { u32::MAX as int } else { mins * 60 };
            let n = t.with_mode(settings, focus);
            &&& !n.is_running
            &&& n.target_end_ms is None
            &&& n.is_focus == focus
            &&& n.current_round == t.current_round
            &&& n.has_started == t.has_started
            &&& n.time_remaining == if secs == 0 { 1 } else { secs }
        }),
{
}

/// Restoring a saved timer keeps its deadline, whether it runs and the kind
/// of phase as saved, and adjusts only the seconds left and the round (to
/// at least 1) and the started mark (set when running). So a running timer
/// whose deadline passed while the app was closed ends that phase when it
/// catches up, and one whose deadline is still ahead keeps it.
pub proof fn lemma_restore_keeps_deadline(saved: PersistedTimerState, settings: PersistedSettings, now_ms: u64)
    ensures
        ({
            let r = saved.restored_spec();
            &&& r.target_end_ms == saved.target_end_ms
            &&& r.is_running == saved.is_running
            &&& r.is_focus == saved.is_focus
            &&& r.time_remaining == if saved.time_remaining == 0 { 1 } else { saved.time_remaining }
            &&& r.current_round == if saved.current_round == 0 { 1 } else { saved.current_round }
            &&& r.has_started == (saved.has_started || saved.is_running)
            &&& (saved.is_running && saved.target_end_ms is Some && saved.target_end_ms->0 <= now_ms)
                ==> r.catch_up_spec(settings, now_ms).1 == TimerEvent::Finished(PhaseEnd {
                    was_focus: saved.is_focus,
                    notify: settings.notifications_enabled,
                    beep: settings.sound_enabled,
                })
            &&& (saved.is_running && saved.target_end_ms is Some && saved.target_end_ms->0 > now_ms)
                ==> r.catch_up_spec(settings, now_ms) == (r, TimerEvent::Counting)
        }),
{
}

/// The start/pause button: a running timer pauses and loses its deadline; a
/// paused one runs, is marked started, and gets a deadline as many seconds
/// after now as it has left (at least one second, held at `u64::MAX`). The
/// seconds left, the kind of phase and the round stay.
pub proof fn lemma_toggle(t: PersistedTimerState, now_ms: u64)
    ensures
        ({
            let n = t.toggled(now_ms);
            let left: int = if t.time_remaining == 0 { 1 } else { t.time_remaining as int };
            &&& n.is_running == !t.is_running
            &&& n.time_remaining == t.time_remaining
            &&& n.is_focus == t.is_focus
            &&& n.current_round == t.current_round
            &&& t.is_running ==> n.target_end_ms is None && n.has_started == t.has_started
            &&& !t.is_running ==> n.has_started && n.target_end_ms == Some(
                if now_ms + left * 1000 > u64::MAX { u64::MAX } else { (now_ms + left * 1000) as u64 },
            )
        }),
{
}

/// A tick before the deadline only updates the seconds left: the whole
/// seconds needed to cover the time to the deadline, rounded up (held at
/// `u32::MAX`); a tick on a paused timer changes nothing; a running timer
/// without a deadline gets one as many seconds ahead as it has left.
pub proof fn lemma_tick_before_deadline(t: PersistedTimerState, settings: PersistedSettings, now_ms: u64)
    ensures
        (!t.is_running ==> t.tick_spec(settings, now_ms) == (t, TimerEvent::Idle)),
        (t.is_running && t.target_end_ms is None ==> {
            let left: int = if t.time_remaining == 0 { 1 } else { t.time_remaining as int };
            t.tick_spec(settings, now_ms) == (
                PersistedTimerState {
                    target_end_ms: Some(
                        if now_ms + left * 1000 > u64::MAX { u64::MAX } else { (now_ms + left * 1000) as u64 },
                    ),
                    ..t
                },
                TimerEvent::Scheduled,
            )
        }),
        (t.is_running && t.target_end_ms is Some && now_ms < t.target_end_ms->0 ==> {
            let n = t.tick_spec(settings, now_ms).0;
            let ms: int = t.target_end_ms->0 - now_ms;
            &&& t.tick_spec(settings, now_ms).1 == TimerEvent::Counting
            &&& n == PersistedTimerState { time_remaining: n.time_remaining, ..t }
            &&& n.time_remaining >= 1
            &&& (ms <= u32::MAX as int * 1000 ==> (n.time_remaining - 1) * 1000 < ms && ms <= n.time_remaining * 1000)
            &&& (ms > u32::MAX as int * 1000 ==> n.time_remaining == u32::MAX)
        }),
{
    if t.is_running && t.target_end_ms is Some && now_ms < t.target_end_ms->0 {
        let ms = (t.target_end_ms->0 - now_ms) as u64;
        if ms <= u32::MAX as int * 1000 {
            lemma_countdown_rounds_up(ms);
        } else {
            assert((ms + 999) / 1000 > u32::MAX) by (nonlinear_arith)
                requires
                    ms > u32::MAX as int * 1000,
            ;
        }
    }
}

/// The timer as first created is a paused focus phase of round 1, never
/// started and without a deadline, with the focus length in seconds
/// (minutes times 60, held at `u32::MAX`); a running timer is marked
/// started and nothing else changes.
pub proof fn lemma_fresh_and_noted(settings: PersistedSettings, t: PersistedTimerState)
    ensures
        ({
            let f = PersistedTimerState::fresh_spec(settings);
            &&& !f.is_running && f.is_focus && f.current_round == 1
            &&& f.target_end_ms is None && !f.has_started
            &&& f.time_remaining == if settings.focus_mins * 60 > u32::MAX { u32::MAX as int } else {
                settings.focus_mins * 60
            }
        }),
        (t.noted() == PersistedTimerState { has_started: t.has_started || t.is_running, ..t }),
{
}

/// Every step of the timer keeps a consistent state consistent: there is
/// always at least one second to count down, the round counter stays at 1 or
/// more, and a running timer has been started.
pub proof fn lemma_steps_keep_consistency(
    t: PersistedTimerState,
    settings: PersistedSettings,
    now_ms: u64,
    focus: bool,
)
    requires
        t.is_consistent(),
    ensures
        t.tick_spec(settings, now_ms).0.is_consistent(),
        t.catch_up_spec(settings, now_ms).0.is_consistent(),
        t.toggled(now_ms).is_consistent(),
        t.reset_spec(settings).is_consistent(),
        t.with_mode(settings, focus).is_consistent(),
        t.after_settings_change(settings).is_consistent(),
        t.is_running ==> t.next_phase(settings, now_ms).is_consistent(),
{
}

/// Every step keeps a settled timer settled: besides consistency, the timer
/// runs exactly when it has a deadline.
pub proof fn lemma_steps_keep_settled(
    t: PersistedTimerState,
    settings: PersistedSettings,
    now_ms: u64,
    focus: bool,
)
    requires
        t.is_settled(),
    ensures
        t.tick_spec(settings, now_ms).0.is_settled(),
        t.catch_up_spec(settings, now_ms).0.is_settled(),
        t.toggled(now_ms).is_settled(),
        t.reset_spec(settings).is_settled(),
        t.with_mode(settings, focus).is_settled(),
        t.after_settings_change(settings).is_settled(),
        t.noted().is_settled(),
{
}

/// Whatever state was saved, starting the app settles it: restoring it,
/// marking a running timer as started, catching up with the clock, and
/// applying the settings leave a timer that runs exactly when it has a
/// deadline, with something to count down and a round counter from 1.
pub proof fn lemma_start_up_settles(saved: PersistedTimerState, settings: PersistedSettings, now_ms: u64)
    ensures
        saved.restored_spec().noted().catch_up_spec(settings, now_ms).0.after_settings_change(settings).is_settled(),
{
}

/// Starting a paused timer and pausing it again gives back the paused state,
/// now marked as started and without a deadline, whatever the two moments.
pub proof fn lemma_start_then_pause(t: PersistedTimerState, start_ms: u64, pause_ms: u64)
    requires
        !t.is_running,
    ensures
        t.toggled(start_ms).toggled(pause_ms) == (PersistedTimerState {
            has_started: true,
            target_end_ms: None,
            ..t
        }),
{
}

/// Resetting twice is resetting once.
pub proof fn lemma_reset_is_idempotent(t: PersistedTimerState, settings: PersistedSettings)
    ensures
        t.reset_spec(settings).reset_spec(settings) == t.reset_spec(settings),
{
}

/// A focus phase followed by a break brings the timer back to a full focus
/// phase of the next round; the break in between lasts the break length.
pub proof fn lemma_focus_then_break(
    t: PersistedTimerState,
    settings: PersistedSettings,
    focus_end_ms: u64,
    break_end_ms: u64,
)
    requires
        t.is_focus,
    ensures
        !t.next_phase(settings, focus_end_ms).is_focus,
        t.next_phase(settings, focus_end_ms).time_remaining == at_least_one(minutes_as_secs(settings.break_mins)),
        t.next_phase(settings, focus_end_ms).current_round == t.current_round,
        t.next_phase(settings, focus_end_ms).next_phase(settings, break_end_ms).is_focus,
        t.next_phase(settings, focus_end_ms).next_phase(settings, break_end_ms).current_round
            == bumped(t.current_round),
        t.next_phase(settings, focus_end_ms).next_phase(settings, break_end_ms).time_remaining
            == at_least_one(minutes_as_secs(settings.focus_mins)),
{
}

/// The seconds shown round the time left up: the last shown second covers
/// the end of the phase, and one second less would not.
pub proof fn lemma_countdown_rounds_up(ms: u64)
    requires
        0 < ms <= u32::MAX as int * 1000,
    ensures
        (seconds_to_cover(ms) - 1) * 1000 < ms,
        ms <= seconds_to_cover(ms) * 1000,
        seconds_to_cover(ms) >= 1,
{
    assert((ms + 999) / 1000 <= u32::MAX) by (nonlinear_arith)
        requires
            0 < ms <= u32::MAX as int * 1000,
    ;
    let s = (ms + 999) / 1000;
    assert((s - 1) * 1000 < ms && ms <= s * 1000 && s >= 1) by (nonlinear_arith)
        requires
            0 < ms,
            s == (ms + 999) / 1000,
    ;
}

/// A phase started with `n` seconds left ends `n` seconds later: every tick
/// before that moment keeps it counting down, showing the seconds still to
/// go rounded up, and the tick at that moment ends it.
pub proof fn lemma_phase_ends_on_time(
    t: PersistedTimerState,
    settings: PersistedSettings,
    start_ms: u64,
    tick_ms: u64,
)
    requires
        !t.is_running,
        t.time_remaining >= 1,
        start_ms + t.time_remaining * 1000 <= u64::MAX,
        start_ms <= tick_ms,
    ensures
        ({
            let running = t.toggled(start_ms);
            let end_ms = (start_ms + t.time_remaining * 1000) as u64;
            &&& running.target_end_ms == Some(end_ms)
            &&& tick_ms < end_ms ==> running.tick_spec(settings, tick_ms) == (
                PersistedTimerState {
                    time_remaining: seconds_to_cover((end_ms - tick_ms) as u64),
                    ..running
                },
                TimerEvent::Counting,
            )
            &&& tick_ms >= end_ms ==> running.tick_spec(settings, tick_ms) == (
                running.next_phase(settings, tick_ms),
                TimerEvent::Finished(phase_end_for(t.is_focus, settings)),
            )
        }),
{
    let end_ms = (start_ms + t.time_remaining * 1000) as u64;
    if tick_ms < end_ms {
        lemma_countdown_rounds_up((end_ms - tick_ms) as u64);
    }
}


/// A count of seconds as the timer shows it: minutes and seconds, each
/// zero-padded to two digits, `mm:ss` (minutes beyond 99 in full).
pub open spec fn clock_face(secs: u32) -> Seq<char> {
    zero_pad(decimal_text((secs / 60) as nat), 2) + ":"@ + zero_pad(decimal_text((secs % 60) as nat), 2)
}

/// Seconds as the timer shows them, `mm:ss`.
pub fn clock_text(secs: u32) -> (s: String)
    ensures
        s@ == clock_face(secs),
{
    let mut s = zero_padded((secs / 60) as u64, 2);
    s.append(":");
    let rest = zero_padded((secs % 60) as u64, 2);
    s.append(rest.as_str());
    s
}

/// What the timer is doing, as the window title names it.
pub open spec fn activity_name(t: PersistedTimerState) -> Seq<char> {
    if t.is_running {
        if t.is_focus { "Focus"@ } else { "Break"@ }
    } else {
        "Paused"@
    }
}

/// The window title: the app's name until the timer is first started, then
/// the time left and what the timer is doing.
pub open spec fn window_title(t: PersistedTimerState) -> Seq<char> {
    if !t.has_started {
        "FocusFlow • Pomodoro"@
    } else {
        clock_face(t.time_remaining) + " • "@ + activity_name(t)
    }
}

impl PersistedTimerState {
    /// The window title for this state, like `24:59 • Focus`.
    pub fn document_title(&self) -> (s: String)
        ensures
            s@ == window_title(*self),
    {
        if !self.has_started {
            return String::from_str("FocusFlow • Pomodoro");
        }
        let mut s = clock_text(self.time_remaining);
        s.append(" • ");
        let activity = if self.is_running {
            if self.is_focus { "Focus" } else { "Break" }
        } else {
            "Paused"
        };
        s.append(activity);
        s
    }
}

/// The round counter against the daily goal: `SESSION 2/4`.
pub fn session_label(current_round: u32, total_rounds: u32) -> (s: String)
    ensures
        s@ == "SESSION "@ + decimal_text(current_round as nat) + "/"@ + decimal_text(total_rounds as nat),
{
    let mut s = String::from_str("SESSION ");
    let r = decimal(current_round as u64);
    s.append(r.as_str());
    s.append("/");
    let t = decimal(total_rounds as u64);
    s.append(t.as_str());
    s
}

impl PhaseEnd {
    /// The notification's title for the phase that ended.
    pub fn notification_title(&self) -> (s: &'static str)
        ensures
            s@ == if self.was_focus { "Focus session complete"@ } else { "Break complete"@ },
    {
        if self.was_focus { "Focus session complete" } else { "Break complete" }
    }

    /// The notification's text for the phase that ended.
    pub fn notification_body(&self) -> (s: &'static str)
        ensures
            s@ == if self.was_focus { "Time for a break."@ } else { "Time to get back to focus."@ },
    {
        if self.was_focus { "Time for a break." } else { "Time to get back to focus." }
    }
}

} // verus!
