//! Daily statistics: sessions done today, the streak of days with a
//! session, the total, and the history of the last days. Days are keyed by
//! their local date written `YYYY-MM-DD`; the interface reads the clock and
//! hands the keys in as a `Calendar`.

use vstd::prelude::*;
use vstd::string::*;
use crate::text::{text_lt, pow10, lemma_text_lt_concat, lemma_single_lt, lemma_digits_order, lemma_zero_padded_fixed, padded_integer, padded_integer_text, after_last_dash, text_after_last_dash, decimal_text, zero_pad, decimal, zero_padded};
use crate::timer::bumped;

verus! {

/// The sessions completed on one day.
#[derive(Clone, Debug)]
pub struct DayCount {
    pub date: String,
    pub count: u32,
}

/// The statistics kept between sessions.
#[derive(Clone, Debug)]
pub struct PersistedStats {
    /// Focus sessions completed on `daily_date`.
    pub daily_count: u32,
    /// The day that `daily_count` counts.
    pub daily_date: String,
    /// Consecutive days, up to the last one with a session, that each had one.
    pub streak_count: u32,
    /// The last day with a completed focus session.
    pub last_completed_date: Option<String>,
    /// Sessions per day over the last days, oldest first.
    pub weekly: Vec<DayCount>,
    pub total_focus_sessions: u32,
}

/// The days as the clock shows them now.
#[derive(Clone, Debug)]
pub struct Calendar {
    /// Today's key.
    pub today: String,
    /// Yesterday's key.
    pub yesterday: String,
    /// The keys of the days that the history shows, oldest first (the last
    /// seven days, today last).
    pub week: Vec<String>,
}

/// The sessions that a history records for `date`: the count of its first
/// entry with that date, or 0 when it has none.
pub open spec fn count_on(days: Seq<DayCount>, date: Seq<char>) -> u32
    decreases days.len(),
{
    if days.len() == 0 {
        0
    } else if days[0].date@ == date {
        days[0].count
    } else {
        count_on(days.drop_first(), date)
    }
}

/// Whether `date` is among the keys of `week`.
pub open spec fn in_week(week: Seq<String>, date: Seq<char>) -> bool {
    exists|i: int| 0 <= i < week.len() && #[trigger] week[i]@ == date
}

/// `out` is the history over the days of `week`, with the counts that
/// `source` records for them.
pub open spec fn is_history_of(out: Seq<DayCount>, source: Seq<DayCount>, week: Seq<String>) -> bool {
    &&& out.len() == week.len()
    &&& forall|i: int| 0 <= i < out.len() ==> {
        &&& (#[trigger] out[i]).date@ == week[i]@
        &&& out[i].count == count_on(source, week[i]@)
    }
}

/// Whether an optional day is the given one.
pub open spec fn is_day(d: Option<String>, day: Seq<char>) -> bool {
    d is Some && d->0@ == day
}

/// Where in a history the first entry for `date` stands, if any.
fn position_of(days: &Vec<DayCount>, date: &String) -> (r: Option<usize>)
    ensures
        match r {
            Some(i) => {
                &&& i < days@.len()
                &&& days@[i as int].date@ == date@
                &&& forall|j: int| 0 <= j < i ==> (#[trigger] days@[j]).date@ != date@
                &&& count_on(days@, date@) == days@[i as int].count
            },
            None => {
                &&& forall|j: int| 0 <= j < days@.len() ==> (#[trigger] days@[j]).date@ != date@
                &&& count_on(days@, date@) == 0
            },
        },
{
    let n = days.len();
    let mut i: usize = 0;
    assert(days@.subrange(0, n as int) =~= days@);
    while i < n
        invariant
            n == days@.len(),
            i <= n,
            forall|j: int| 0 <= j < i ==> (#[trigger] days@[j]).date@ != date@,
            count_on(days@, date@) == count_on(days@.subrange(i as int, n as int), date@),
        decreases n - i,
    {
        assert(days@.subrange(i as int, n as int)[0] == days@[i as int]);
        if days[i].date == *date {
            return Some(i);
        }
        assert(days@.subrange(i as int, n as int).drop_first() =~= days@.subrange(i + 1, n as int));
        i = i + 1;
    }
    None
}

/// The sessions that a history records for `date`.
pub fn sessions_on(days: &Vec<DayCount>, date: &String) -> (c: u32)
    ensures
        c == count_on(days@, date@),
{
    match position_of(days, date) {
        Some(i) => days[i].count,
        None => 0,
    }
}

/// The history over the days of `week`, oldest first, each with the count
/// that `weekly` records for it (0 for a day it does not hold).
pub fn build_weekly(weekly: &Vec<DayCount>, week: &Vec<String>) -> (out: Vec<DayCount>)
    ensures
        is_history_of(out@, weekly@, week@),
{
    let mut out: Vec<DayCount> = Vec::new();
    let n = week.len();
    let mut i: usize = 0;
    while i < n
        invariant
            n == week@.len(),
            i <= n,
            out@.len() == i,
            forall|j: int| 0 <= j < i ==> {
                &&& (#[trigger] out@[j]).date@ == week@[j]@
                &&& out@[j].count == count_on(weekly@, week@[j]@)
            },
        decreases n - i,
    {
        let count = sessions_on(weekly, &week[i]);
        out.push(DayCount { date: week[i].clone(), count });
        i = i + 1;
    }
    out
}

/// In a history over `week`, a day of the week has the count that the
/// source records for it, and any other day has none.
pub proof fn lemma_history_count(out: Seq<DayCount>, source: Seq<DayCount>, week: Seq<String>, date: Seq<char>)
    requires
        is_history_of(out, source, week),
    ensures
        count_on(out, date) == if in_week(week, date) { count_on(source, date) } else { 0 },
    decreases out.len(),
{
    if out.len() > 0 {
        let rest = week.drop_first();
        assert(is_history_of(out.drop_first(), source, rest)) by {
            assert forall|i: int| 0 <= i < out.drop_first().len() implies {
                &&& (#[trigger] out.drop_first()[i]).date@ == rest[i]@
                &&& out.drop_first()[i].count == count_on(source, rest[i]@)
            } by {
                assert(out.drop_first()[i] == out[i + 1]);
                assert(rest[i] == week[i + 1]);
            }
        }
        lemma_history_count(out.drop_first(), source, rest, date);
        assert(out[0].date@ == week[0]@);
        if out[0].date@ != date {
            if in_week(week, date) {
                let k = choose|k: int| 0 <= k < week.len() && #[trigger] week[k]@ == date;
                assert(k != 0);
                assert(rest[k - 1] == week[k]);
                assert(in_week(rest, date));
            }
            if in_week(rest, date) {
                let k = choose|k: int| 0 <= k < rest.len() && #[trigger] rest[k]@ == date;
                assert(rest[k] == week[k + 1]);
                assert(in_week(week, date));
            }
        } else {
            assert(in_week(week, date)) by {
                assert(week[0]@ == date);
            }
        }
    } else {
        if in_week(week, date) {
            let k = choose|k: int| 0 <= k < week.len() && #[trigger] week[k]@ == date;
            assert(false);
        }
    }
}


proof fn lemma_count_on_update(days: Seq<DayCount>, i: int, entry: DayCount, date: Seq<char>)
    requires
        0 <= i < days.len(),
        entry.date@ == days[i].date@,
        forall|j: int| 0 <= j < i ==> (#[trigger] days[j]).date@ != days[i].date@,
    ensures
        count_on(days.update(i, entry), date) == if date == days[i].date@ {
            entry.count
        } else {
            count_on(days, date)
        },
    decreases i,
{
    if i > 0 {
        assert(days.update(i, entry).drop_first() =~= days.drop_first().update(i - 1, entry));
        assert forall|j: int| 0 <= j < i - 1 implies (#[trigger] days.drop_first()[j]).date@ != days.drop_first()[i - 1].date@ by {
            assert(days.drop_first()[j] == days[j + 1]);
        }
        assert(days.drop_first()[i - 1] == days[i]);
        lemma_count_on_update(days.drop_first(), i - 1, entry, date);
        assert(days.update(i, entry)[0] == days[0]);
    } else {
        assert(days.update(i, entry).drop_first() =~= days.drop_first());
        assert(days.update(i, entry)[0] == entry);
    }
}

proof fn lemma_count_on_push(days: Seq<DayCount>, entry: DayCount, date: Seq<char>)
    requires
        forall|j: int| 0 <= j < days.len() ==> (#[trigger] days[j]).date@ != entry.date@,
    ensures
        count_on(days.push(entry), date) == if date == entry.date@ {
            entry.count
        } else {
            count_on(days, date)
        },
    decreases days.len(),
{
    if days.len() > 0 {
        assert(days.push(entry).drop_first() =~= days.drop_first().push(entry));
        assert forall|j: int| 0 <= j < days.drop_first().len() implies (#[trigger] days.drop_first()[j]).date@ != entry.date@ by {
            assert(days.drop_first()[j] == days[j + 1]);
        }
        lemma_count_on_push(days.drop_first(), entry, date);
        assert(days.push(entry)[0] == days[0]);
        assert(days[0].date@ != entry.date@);
    } else {
        assert(days.push(entry).drop_first() =~= Seq::<DayCount>::empty());
        assert(days.push(entry)[0] == entry);
        assert(count_on(Seq::<DayCount>::empty(), date) == 0);
        assert(days =~= Seq::<DayCount>::empty());
    }
}

/// Counts one more session on `today`: its entry goes up by one (held at
/// `u32::MAX`), or a new entry of one session is added at the end.
fn add_session_on(weekly: &mut Vec<DayCount>, today: &String)
    ensures
        forall|date: Seq<char>| #[trigger] count_on(final(weekly)@, date) == if date == today@ {
            bumped(count_on(old(weekly)@, date))
        } else {
            count_on(old(weekly)@, date)
        },
{
    match position_of(weekly, today) {
        Some(i) => {
            let entry = DayCount { date: weekly[i].date.clone(), count: weekly[i].count.saturating_add(1) };
            let ghost before = weekly@;
            weekly.set(i, entry);
            proof {
                assert forall|date: Seq<char>| #[trigger] count_on(weekly@, date) == if date == today@ {
                    bumped(count_on(before, date))
                } else {
                    count_on(before, date)
                } by {
                    lemma_count_on_update(before, i as int, entry, date);
                }
            }
        },
        None => {
            let entry = DayCount { date: today.clone(), count: 1 };
            let ghost before = weekly@;
            weekly.push(entry);
            proof {
                assert forall|date: Seq<char>| #[trigger] count_on(weekly@, date) == if date == today@ {
                    bumped(count_on(before, date))
                } else {
                    count_on(before, date)
                } by {
                    lemma_count_on_push(before, entry, date);
                }
            }
        },
    }
}


/// The change of day: when the stats still count an earlier day, today's
/// count starts from zero, the streak ends unless the last session was
/// yesterday, and the history moves to the days of `cal`. On the day they
/// count, nothing changes.
pub open spec fn rollover_step(before: PersistedStats, cal: Calendar, after: PersistedStats) -> bool {
    if before.daily_date@ != cal.today@ {
        &&& after.daily_date == cal.today
        &&& after.daily_count == 0
        &&& after.streak_count == if is_day(before.last_completed_date, cal.yesterday@) {
            before.streak_count
        } else {
            0
        }
        &&& after.last_completed_date == before.last_completed_date
        &&& is_history_of(after.weekly@, before.weekly@, cal.week@)
        &&& after.total_focus_sessions == before.total_focus_sessions
    } else {
        after == before
    }
}

/// A completed focus session on `cal.today`, after the change of day: one
/// more session today and in total, today becomes the last day with a
/// session, the streak grows when the previous one was yesterday, starts
/// again at 1 when it was longer ago, and stays when today already had one;
/// the history shows one more session today.
pub open spec fn completion_step(before: PersistedStats, cal: Calendar, after: PersistedStats) -> bool {
    let new_day = before.daily_date@ != cal.today@;
    let streak_before = if new_day && !is_day(before.last_completed_date, cal.yesterday@) {
        0
    } else {
        before.streak_count
    };
    &&& after.daily_date == if new_day { cal.today } else { before.daily_date }
    &&& after.daily_count == bumped(if new_day { 0 } else { before.daily_count })
    &&& after.total_focus_sessions == bumped(before.total_focus_sessions)
    &&& after.streak_count == if is_day(before.last_completed_date, cal.today@) {
        streak_before
    } else if is_day(before.last_completed_date, cal.yesterday@) {
        bumped(streak_before)
    } else {
        1
    }
    &&& after.last_completed_date == if is_day(before.last_completed_date, cal.today@) {
        before.last_completed_date
    } else {
        Some(cal.today)
    }
    &&& after.weekly@.len() == cal.week@.len()
    &&& forall|i: int| 0 <= i < after.weekly@.len() ==> {
        &&& (#[trigger] after.weekly@[i]).date@ == cal.week@[i]@
        &&& after.weekly@[i].count == if cal.week@[i]@ == cal.today@ {
            bumped(count_on(before.weekly@, cal.today@))
        } else {
            count_on(before.weekly@, cal.week@[i]@)
        }
    }
}

/// Stats read back at start-up: the change of day, and the history moved
/// to the days of `cal` in any case.
pub open spec fn load_step(before: PersistedStats, cal: Calendar, after: PersistedStats) -> bool {
    let new_day = before.daily_date@ != cal.today@;
    &&& after.daily_date == if new_day { cal.today } else { before.daily_date }
    &&& after.daily_count == if new_day { 0 } else { before.daily_count }
    &&& after.streak_count == if new_day && !is_day(before.last_completed_date, cal.yesterday@) {
        0
    } else {
        before.streak_count
    }
    &&& after.last_completed_date == before.last_completed_date
    &&& is_history_of(after.weekly@, before.weekly@, cal.week@)
    &&& after.total_focus_sessions == before.total_focus_sessions
}

fn is_same_day(d: &Option<String>, day: &String) -> (b: bool)
    ensures
        b == is_day(*d, day@),
{
    match d {
        Some(x) => *x == *day,
        None => false,
    }
}

impl PersistedStats {
    /// The stats before any session: nothing counted today, no streak, and
    /// an empty history over the days of `cal`.
    pub fn fresh(cal: &Calendar) -> (s: Self)
        ensures
            s.daily_count == 0,
            s.daily_date@ == cal.today@,
            s.streak_count == 0,
            s.last_completed_date is None,
            s.total_focus_sessions == 0,
            is_history_of(s.weekly@, Seq::empty(), cal.week@),
            is_proper_calendar(*cal) ==> ends_on_counted_day(s) && bar_matches_counter(s, *cal),
    {
        let none: Vec<DayCount> = Vec::new();
        let s = PersistedStats {
            daily_count: 0,
            daily_date: cal.today.clone(),
            streak_count: 0,
            last_completed_date: None,
            weekly: build_weekly(&none, &cal.week),
            total_focus_sessions: 0,
        };
        proof {
            lemma_history_count(s.weekly@, Seq::empty(), cal.week@, cal.today@);
            assert(count_on(Seq::<DayCount>::empty(), cal.today@) == 0);
        }
        s
    }

    /// Moves the stats to the day of `cal` when they still count an earlier
    /// one.
    pub fn roll_over_day(&mut self, cal: &Calendar)
        ensures
            rollover_step(*old(self), *cal, *final(self)),
    {
        if self.daily_date != cal.today {
            let continues = is_same_day(&self.last_completed_date, &cal.yesterday);
            if !continues {
                self.streak_count = 0;
            }
            self.daily_date = cal.today.clone();
            self.daily_count = 0;
            self.weekly = build_weekly(&self.weekly, &cal.week);
        }
    }

    /// Brings stats read back at start-up to the day of `cal`, and their
    /// history to its days.
    pub fn normalize_on_load(&mut self, cal: &Calendar)
        ensures
            load_step(*old(self), *cal, *final(self)),
    {
        if self.daily_date != cal.today {
            let continues = is_same_day(&self.last_completed_date, &cal.yesterday);
            if !continues {
                self.streak_count = 0;
            }
            self.daily_date = cal.today.clone();
            self.daily_count = 0;
        }
        self.weekly = build_weekly(&self.weekly, &cal.week);
    }

    /// Records a completed focus session on the day of `cal`.
    pub fn record_focus_completion(&mut self, cal: &Calendar)
        ensures
            completion_step(*old(self), *cal, *final(self)),
    {
        let ghost before = *self;
        self.roll_over_day(cal);
        let ghost rolled = self.weekly@;
        self.daily_count = self.daily_count.saturating_add(1);
        self.total_focus_sessions = self.total_focus_sessions.saturating_add(1);
        let done_today = is_same_day(&self.last_completed_date, &cal.today);
        if !done_today {
            let continues = is_same_day(&self.last_completed_date, &cal.yesterday);
            if continues {
                self.streak_count = self.streak_count.saturating_add(1);
            } else {
                self.streak_count = 1;
            }
            self.last_completed_date = Some(cal.today.clone());
        }
        let mut weekly = Vec::new();
        std::mem::swap(&mut weekly, &mut self.weekly);
        add_session_on(&mut weekly, &cal.today);
        let ghost bumped_days = weekly@;
        self.weekly = build_weekly(&weekly, &cal.week);
        proof {
            let new_day = before.daily_date@ != cal.today@;
            assert forall|i: int| 0 <= i < self.weekly@.len() implies {
                &&& (#[trigger] self.weekly@[i]).date@ == cal.week@[i]@
                &&& self.weekly@[i].count == if cal.week@[i]@ == cal.today@ {
                    bumped(count_on(before.weekly@, cal.today@))
                } else {
                    count_on(before.weekly@, cal.week@[i]@)
                }
            } by {
                let day = cal.week@[i]@;
                assert(in_week(cal.week@, day));
                if new_day {
                    lemma_history_count(rolled, before.weekly@, cal.week@, day);
                } else {
                    assert(rolled == before.weekly@);
                }
                assert(count_on(bumped_days, day) == if day == cal.today@ {
                    bumped(count_on(rolled, day))
                } else {
                    count_on(rolled, day)
                });
            }
        }
    }
}


/// A calendar as the clock gives it: seven distinct day keys, oldest first,
/// ending with yesterday and today.
pub open spec fn is_proper_calendar(cal: Calendar) -> bool {
    &&& cal.week@.len() == 7
    &&& cal.week@[6]@ == cal.today@
    &&& cal.week@[5]@ == cal.yesterday@
    &&& forall|i: int, j: int| 0 <= i < j < 7 ==> cal.week@[i]@ != cal.week@[j]@
}

/// The history covers seven days and ends on the day that the stats count.
pub open spec fn ends_on_counted_day(s: PersistedStats) -> bool {
    &&& s.weekly@.len() == 7
    &&& s.weekly@[6].date@ == s.daily_date@
}

/// Today's bar in the history shows the sessions counted today (none when
/// the stats still count an earlier day).
pub open spec fn bar_matches_counter(s: PersistedStats, cal: Calendar) -> bool {
    count_on(s.weekly@, cal.today@) == if s.daily_date@ == cal.today@ { s.daily_count } else { 0 }
}

/// In a history whose earlier entries are for other days, an entry's day has
/// that entry's count.
pub proof fn lemma_count_on_at(days: Seq<DayCount>, i: int)
    requires
        0 <= i < days.len(),
        forall|j: int| 0 <= j < i ==> (#[trigger] days[j]).date@ != days[i].date@,
    ensures
        count_on(days, days[i].date@) == days[i].count,
    decreases i,
{
    if i > 0 {
        assert forall|j: int| 0 <= j < i - 1 implies (#[trigger] days.drop_first()[j]).date@ != days.drop_first()[i - 1].date@ by {
            assert(days.drop_first()[j] == days[j + 1]);
        }
        assert(days.drop_first()[i - 1] == days[i]);
        lemma_count_on_at(days.drop_first(), i - 1);
    }
}

/// With a proper calendar, each step of the stats leaves a history of seven
/// days that ends on the day they count: a recorded session and a start-up
/// always do; the change of day does too, given that a history already
/// counting today did.
pub proof fn lemma_history_ends_on_counted_day(s0: PersistedStats, cal: Calendar, s1: PersistedStats)
    requires
        is_proper_calendar(cal),
    ensures
        completion_step(s0, cal, s1) ==> ends_on_counted_day(s1),
        load_step(s0, cal, s1) ==> ends_on_counted_day(s1),
        rollover_step(s0, cal, s1) && (s0.daily_date@ == cal.today@ ==> ends_on_counted_day(s0))
            ==> ends_on_counted_day(s1),
{
}

/// With a proper calendar, today's bar follows the daily counter: a
/// recorded session makes the last bar of the history today's, with exactly
/// the sessions counted today, and the change of day and start-up keep the
/// two in step.
pub proof fn lemma_bar_follows_counter(s0: PersistedStats, cal: Calendar, s1: PersistedStats)
    requires
        is_proper_calendar(cal),
        bar_matches_counter(s0, cal),
    ensures
        completion_step(s0, cal, s1) ==> {
            &&& s1.weekly@[6].date@ == s1.daily_date@
            &&& s1.weekly@[6].count == s1.daily_count
            &&& bar_matches_counter(s1, cal)
        },
        rollover_step(s0, cal, s1) ==> bar_matches_counter(s1, cal),
        load_step(s0, cal, s1) ==> bar_matches_counter(s1, cal),
{
    assert(in_week(cal.week@, cal.today@)) by {
        assert(cal.week@[6]@ == cal.today@);
    }
    if completion_step(s0, cal, s1) {
        assert(forall|j: int| 0 <= j < 6 ==> (#[trigger] s1.weekly@[j]).date@ == cal.week@[j]@);
        assert(s1.weekly@[6].date@ == cal.week@[6]@);
        assert forall|j: int| 0 <= j < 6 implies (#[trigger] s1.weekly@[j]).date@ != s1.weekly@[6].date@ by {
            assert(cal.week@[j]@ != cal.week@[6]@);
        }
        lemma_count_on_at(s1.weekly@, 6);
    }
    if rollover_step(s0, cal, s1) && s0.daily_date@ != cal.today@ {
        lemma_history_count(s1.weekly@, s0.weekly@, cal.week@, cal.today@);
    }
    if load_step(s0, cal, s1) {
        lemma_history_count(s1.weekly@, s0.weekly@, cal.week@, cal.today@);
    }
}

/// A second session on the same day counts one more session today and in
/// total, and leaves the streak as it was.
pub proof fn lemma_second_session_same_day(
    s0: PersistedStats,
    cal: Calendar,
    s1: PersistedStats,
    s2: PersistedStats,
)
    requires
        completion_step(s0, cal, s1),
        completion_step(s1, cal, s2),
    ensures
        s2.streak_count == s1.streak_count,
        s2.daily_count == bumped(s1.daily_count),
        s2.total_focus_sessions == bumped(s1.total_focus_sessions),
        s2.last_completed_date == s1.last_completed_date,
        s2.daily_date == s1.daily_date,
        is_proper_calendar(cal) ==> s2.weekly@[6].count == bumped(s1.weekly@[6].count),
{
    if is_proper_calendar(cal) {
        assert forall|j: int| 0 <= j < 6 implies (#[trigger] s1.weekly@[j]).date@ != s1.weekly@[6].date@ by {
            assert(s1.weekly@[j].date@ == cal.week@[j]@);
            assert(s1.weekly@[6].date@ == cal.week@[6]@);
        }
        lemma_count_on_at(s1.weekly@, 6);
        assert(cal.week@[6]@ == cal.today@);
    }
}

/// A session on the day after the last one extends the streak by one day,
/// and today's count starts again at one.
pub proof fn lemma_session_next_day_extends_streak(
    s0: PersistedStats,
    day1: Calendar,
    s1: PersistedStats,
    day2: Calendar,
    s2: PersistedStats,
)
    requires
        completion_step(s0, day1, s1),
        completion_step(s1, day2, s2),
        day2.yesterday@ == day1.today@,
        day2.today@ != day1.today@,
    ensures
        s2.streak_count == bumped(s1.streak_count),
        s2.daily_count == 1,
{
}

/// A session after a day without one starts the streak again at one.
pub proof fn lemma_session_after_gap_restarts_streak(
    s0: PersistedStats,
    day1: Calendar,
    s1: PersistedStats,
    day2: Calendar,
    s2: PersistedStats,
)
    requires
        completion_step(s0, day1, s1),
        completion_step(s1, day2, s2),
        day2.yesterday@ != day1.today@,
        day2.today@ != day1.today@,
    ensures
        s2.streak_count == 1,
        s2.daily_count == 1,
{
}

/// After a session the streak counts at least that day, provided the stats
/// were coherent: a last session today means they count today and hold a
/// streak.
pub proof fn lemma_streak_counts_today(s0: PersistedStats, cal: Calendar, s1: PersistedStats)
    requires
        completion_step(s0, cal, s1),
        is_day(s0.last_completed_date, cal.today@) ==> s0.daily_date@ == cal.today@ && s0.streak_count >= 1,
    ensures
        s1.streak_count >= 1,
        is_day(s1.last_completed_date, cal.today@),
{
}

/// On a new day (the stats count another one), the change of day and
/// start-up both set today's count to zero and count today, keep the streak
/// only when the last session was yesterday (else it drops to 0), and keep
/// the last session's day and the total; on the day already counted the
/// change of day changes nothing and start-up keeps the counts. Either way
/// start-up leaves a history over the calendar's days with the counts
/// recorded for them.
pub proof fn lemma_new_day(s0: PersistedStats, cal: Calendar, s1: PersistedStats)
    ensures
        (rollover_step(s0, cal, s1) || load_step(s0, cal, s1)) && s0.daily_date@ != cal.today@ ==> {
            &&& s1.daily_count == 0
            &&& s1.daily_date@ == cal.today@
            &&& s1.streak_count == if s0.last_completed_date is Some && s0.last_completed_date->0@ == cal.yesterday@ {
                s0.streak_count
            } else {
                0
            }
            &&& s1.last_completed_date == s0.last_completed_date
            &&& s1.total_focus_sessions == s0.total_focus_sessions
        },
        rollover_step(s0, cal, s1) && s0.daily_date@ == cal.today@ ==> s1 == s0,
        load_step(s0, cal, s1) && s0.daily_date@ == cal.today@ ==> {
            &&& s1.daily_count == s0.daily_count
            &&& s1.streak_count == s0.streak_count
            &&& s1.daily_date == s0.daily_date
        },
        load_step(s0, cal, s1) ==> s1.weekly@.len() == cal.week@.len() && forall|i: int|
            0 <= i < s1.weekly@.len() ==> (#[trigger] s1.weekly@[i]).date@ == cal.week@[i]@
                && s1.weekly@[i].count == count_on(s0.weekly@, cal.week@[i]@),
{
}

/// The change of day happens once: a second rollover on the same calendar
/// changes nothing.
pub proof fn lemma_rollover_happens_once(
    s0: PersistedStats,
    cal: Calendar,
    s1: PersistedStats,
    s2: PersistedStats,
)
    requires
        rollover_step(s0, cal, s1),
        rollover_step(s1, cal, s2),
    ensures
        s2 == s1,
{
}

/// Rebuilding a history over the same days changes none of its counts.
pub proof fn lemma_rebuild_keeps_history(
    source: Seq<DayCount>,
    week: Seq<String>,
    once: Seq<DayCount>,
    twice: Seq<DayCount>,
)
    requires
        is_history_of(once, source, week),
        is_history_of(twice, once, week),
    ensures
        forall|i: int| 0 <= i < twice.len() ==> (#[trigger] twice[i]).count == once[i].count,
{
    assert forall|i: int| 0 <= i < twice.len() implies (#[trigger] twice[i]).count == once[i].count by {
        assert(in_week(week, week[i]@));
        lemma_history_count(once, source, week, week[i]@);
    }
}

/// A day's key as `format!("{:04}-{:02}-{:02}", year, month, day)` writes it.
pub open spec fn date_key_text(year: int, month: int, day: int) -> Seq<char> {
    padded_integer(year, 4) + seq!['-'] + padded_integer(month, 2) + seq!['-'] + padded_integer(day, 2)
}

/// Day keys sort as their days do: for years 0 to 9999 (months and days
/// below 100), one key comes before another in string order exactly when its
/// year, month and day come first, and two keys are equal exactly when the
/// days are.
pub proof fn lemma_key_order(y1: int, m1: int, d1: int, y2: int, m2: int, d2: int)
    requires
        0 <= y1 <= 9999,
        0 <= y2 <= 9999,
        0 <= m1 <= 99,
        0 <= m2 <= 99,
        0 <= d1 <= 99,
        0 <= d2 <= 99,
    ensures
        text_lt(date_key_text(y1, m1, d1), date_key_text(y2, m2, d2))
            == (y1 < y2 || (y1 == y2 && (m1 < m2 || (m1 == m2 && d1 < d2)))),
        (date_key_text(y1, m1, d1) == date_key_text(y2, m2, d2)) == (y1 == y2 && m1 == m2 && d1 == d2),
{
    assert(pow10(2) == 100) by {
        assert(pow10(0) == 1);
        assert(pow10(1) == 10);
    }
    assert(pow10(4) == 10000) by {
        assert(pow10(2) == 100) by {
            assert(pow10(0) == 1);
            assert(pow10(1) == 10);
        }
        assert(pow10(3) == 1000);
    }
    let ya = padded_integer(y1, 4);
    let yb = padded_integer(y2, 4);
    let ma = padded_integer(m1, 2);
    let mb = padded_integer(m2, 2);
    let da = padded_integer(d1, 2);
    let db = padded_integer(d2, 2);
    lemma_zero_padded_fixed(y1 as nat, 4);
    lemma_zero_padded_fixed(y2 as nat, 4);
    lemma_zero_padded_fixed(m1 as nat, 2);
    lemma_zero_padded_fixed(m2 as nat, 2);
    lemma_zero_padded_fixed(d1 as nat, 2);
    lemma_zero_padded_fixed(d2 as nat, 2);
    lemma_digits_order(ya, yb);
    lemma_digits_order(ma, mb);
    lemma_digits_order(da, db);
    let dash = seq!['-'];
    assert(date_key_text(y1, m1, d1) =~= ya + (dash + (ma + (dash + da))));
    assert(date_key_text(y2, m2, d2) =~= yb + (dash + (mb + (dash + db))));
    lemma_single_lt('-', '-');
    lemma_text_lt_concat(dash, dash, da, db);
    lemma_text_lt_concat(ma, mb, dash + da, dash + db);
    lemma_text_lt_concat(dash, dash, ma + (dash + da), mb + (dash + db));
    lemma_text_lt_concat(ya, yb, dash + (ma + (dash + da)), dash + (mb + (dash + db)));
}

/// The key of a day of the local calendar: `YYYY-MM-DD`.
pub fn date_key(year: i32, month: i32, day: i32) -> (k: String)
    ensures
        k@ == date_key_text(year as int, month as int, day as int),
{
    let mut k = padded_integer_text(year as i64, 4);
    proof { reveal_strlit("-"); }
    k.append("-");
    let m = padded_integer_text(month as i64, 2);
    k.append(m.as_str());
    k.append("-");
    let d = padded_integer_text(day as i64, 2);
    k.append(d.as_str());
    k
}


proof fn lemma_after_last_dash_of_tail(a: Seq<char>, b: Seq<char>)
    requires
        forall|i: int| 0 <= i < b.len() ==> b[i] != '-',
    ensures
        after_last_dash(a + seq!['-'] + b) == b,
    decreases b.len(),
{
    if b.len() == 0 {
        assert(a + seq!['-'] + b =~= a.push('-'));
        assert((a + seq!['-'] + b).last() == '-');
    } else {
        lemma_after_last_dash_of_tail(a, b.drop_last());
        assert((a + seq!['-'] + b).drop_last() =~= a + seq!['-'] + b.drop_last());
        assert((a + seq!['-'] + b).last() == b.last());
        assert(b.drop_last().push(b.last()) =~= b);
    }
}

proof fn lemma_padded_digits_have_no_dash(v: nat, width: nat)
    ensures
        forall|i: int| 0 <= i < padded_integer(v as int, width).len() ==> padded_integer(v as int, width)[i] != '-',
{
    crate::text::lemma_decimal_text_digits(v);
    let d = decimal_text(v);
    let p = padded_integer(v as int, width);
    assert forall|i: int| 0 <= i < p.len() implies p[i] != '-' by {
        if d.len() < width {
            let zeros = Seq::new((width - d.len()) as nat, |k: int| '0');
            assert(p == zeros + d);
            if i >= zeros.len() {
                assert(p[i] == d[i - zeros.len()]);
                assert(crate::text::is_digit_char(d[i - zeros.len()]));
            }
        } else {
            assert(crate::text::is_digit_char(d[i]));
        }
    }
}

/// The label under a day's bar: the day of the month, the part of its key
/// after the last `-`.
pub fn day_label(date: &String) -> (l: String)
    ensures
        l@ == after_last_dash(date@),
{
    text_after_last_dash(date.as_str())
}

/// The label of a day's bar is the zero-padded day of the month of its key.
pub proof fn lemma_day_label_of_key(year: int, month: int, day: nat)
    ensures
        after_last_dash(date_key_text(year, month, day as int)) == padded_integer(day as int, 2),
{
    lemma_padded_digits_have_no_dash(day, 2);
    let a = padded_integer(year, 4) + seq!['-'] + padded_integer(month, 2);
    assert(date_key_text(year, month, day as int) =~= a + seq!['-'] + padded_integer(day as int, 2));
    lemma_after_last_dash_of_tail(a, padded_integer(day as int, 2));
}

/// The largest count in a history, or 0 for an empty one: the height that
/// the tallest bar stands for.
pub fn busiest_day_count(weekly: &Vec<DayCount>) -> (m: u32)
    ensures
        forall|i: int| 0 <= i < weekly@.len() ==> (#[trigger] weekly@[i]).count <= m,
        weekly@.len() == 0 ==> m == 0,
        weekly@.len() > 0 ==> exists|i: int| 0 <= i < weekly@.len() && (#[trigger] weekly@[i]).count == m,
{
    let n = weekly.len();
    if n == 0 {
        return 0;
    }
    let mut m = weekly[0].count;
    let mut i: usize = 1;
    while i < n
        invariant
            n == weekly@.len(),
            1 <= i <= n,
            forall|j: int| 0 <= j < i ==> (#[trigger] weekly@[j]).count <= m,
            exists|j: int| 0 <= j < i && (#[trigger] weekly@[j]).count == m,
        decreases n - i,
    {
        if weekly[i].count > m {
            m = weekly[i].count;
        }
        i = i + 1;
    }
    m
}

/// Whether today's sessions reach the daily goal of `total_rounds`.
pub fn goal_met(daily_count: u32, total_rounds: u32) -> (b: bool)
    ensures
        b == (daily_count >= total_rounds),
{
    daily_count >= total_rounds
}

/// The caption of the daily goal card: `DAILY GOAL • MET` once the goal is
/// reached, `DAILY GOAL` before.
pub fn daily_goal_caption(daily_count: u32, total_rounds: u32) -> (c: &'static str)
    ensures
        c@ == if daily_count >= total_rounds { "DAILY GOAL • MET"@ } else { "DAILY GOAL"@ },
{
    if daily_count >= total_rounds { "DAILY GOAL • MET" } else { "DAILY GOAL" }
}

/// Today's sessions against the goal, both zero-padded to two digits:
/// `03 / 04`.
pub fn daily_progress_label(daily_count: u32, total_rounds: u32) -> (l: String)
    ensures
        l@ == zero_pad(decimal_text(daily_count as nat), 2) + " / "@ + zero_pad(decimal_text(total_rounds as nat), 2),
{
    let mut l = zero_padded(daily_count as u64, 2);
    l.append(" / ");
    let t = zero_padded(total_rounds as u64, 2);
    l.append(t.as_str());
    l
}

/// The footer's goal card: `03 / 04 SESSIONS`.
pub fn daily_sessions_label(daily_count: u32, total_rounds: u32) -> (l: String)
    ensures
        l@ == zero_pad(decimal_text(daily_count as nat), 2) + " / "@ + zero_pad(decimal_text(total_rounds as nat), 2)
            + " SESSIONS"@,
{
    let mut l = daily_progress_label(daily_count, total_rounds);
    l.append(" SESSIONS");
    l
}

/// The streak as shown: `5 DAYS`.
pub fn streak_label(streak_count: u32) -> (l: String)
    ensures
        l@ == decimal_text(streak_count as nat) + " DAYS"@,
{
    let mut l = decimal(streak_count as u64);
    l.append(" DAYS");
    l
}

/// The total of sessions, zero-padded to two digits.
pub fn total_sessions_label(total: u32) -> (l: String)
    ensures
        l@ == zero_pad(decimal_text(total as nat), 2),
{
    zero_padded(total as u64, 2)
}

} // verus!
