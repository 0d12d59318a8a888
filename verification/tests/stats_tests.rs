use focusflow::settings::PersistedSettings;
use focusflow::session::{advance, resume};
use focusflow::stats::{
    build_weekly, busiest_day_count, daily_goal_caption, daily_progress_label, daily_sessions_label,
    date_key, day_label, goal_met, sessions_on, streak_label, total_sessions_label, Calendar, DayCount,
    PersistedStats,
};
use focusflow::timer::{PersistedTimerState, TimerEvent};

fn key(d: u32) -> String {
    format!("2024-03-{:02}", d)
}

fn calendar(today: u32) -> Calendar {
    Calendar {
        today: key(today),
        yesterday: key(today - 1),
        week: (today - 6..=today).map(key).collect(),
    }
}

fn day(d: u32, count: u32) -> DayCount {
    DayCount { date: key(d), count }
}

fn counts(s: &PersistedStats) -> Vec<u32> {
    s.weekly.iter().map(|d| d.count).collect()
}

#[test]
fn date_keys() {
    assert_eq!(date_key(2024, 3, 7), "2024-03-07");
    assert_eq!(date_key(987, 12, 31), "0987-12-31");
    assert_eq!(date_key(-5, 1, 1), format!("{:04}-{:02}-{:02}", -5, 1, 1));
    assert_eq!(day_label(&date_key(2024, 3, 7)), "07");
    assert_eq!(day_label(&"nodash".to_string()), "nodash");
}

#[test]
fn weekly_history_takes_first_entry_and_fills_gaps() {
    let week: Vec<String> = vec![key(5), key(6), key(7)];
    let old = vec![day(6, 2), day(3, 9), day(6, 5), day(7, 1)];
    let out = build_weekly(&old, &week);
    let dates: Vec<&str> = out.iter().map(|d| d.date.as_str()).collect();
    assert_eq!(dates, vec!["2024-03-05", "2024-03-06", "2024-03-07"]);
    assert_eq!(out.iter().map(|d| d.count).collect::<Vec<_>>(), vec![0, 2, 1]);
    assert_eq!(sessions_on(&old, &key(6)), 2);
    assert_eq!(sessions_on(&old, &key(1)), 0);
    let again = build_weekly(&out, &week);
    assert_eq!(again.iter().map(|d| d.count).collect::<Vec<_>>(), vec![0, 2, 1]);
}

#[test]
fn fresh_stats() {
    let s = PersistedStats::fresh(&calendar(10));
    assert_eq!(s.daily_count, 0);
    assert_eq!(s.daily_date, key(10));
    assert_eq!(s.streak_count, 0);
    assert_eq!(s.last_completed_date, None);
    assert_eq!(s.total_focus_sessions, 0);
    assert_eq!(counts(&s), vec![0; 7]);
    assert_eq!(s.weekly[6].date, key(10));
    assert_eq!(s.weekly[0].date, key(4));
}

#[test]
fn sessions_on_one_day_keep_the_streak() {
    let cal = calendar(10);
    let mut s = PersistedStats::fresh(&cal);
    s.record_focus_completion(&cal);
    assert_eq!(s.daily_count, 1);
    assert_eq!(s.streak_count, 1);
    assert_eq!(s.last_completed_date, Some(key(10)));
    s.record_focus_completion(&cal);
    assert_eq!(s.daily_count, 2);
    assert_eq!(s.streak_count, 1);
    assert_eq!(s.total_focus_sessions, 2);
    assert_eq!(counts(&s), vec![0, 0, 0, 0, 0, 0, 2]);
}

#[test]
fn consecutive_days_extend_the_streak() {
    let mut s = PersistedStats::fresh(&calendar(10));
    s.record_focus_completion(&calendar(10));
    s.record_focus_completion(&calendar(11));
    assert_eq!(s.streak_count, 2);
    assert_eq!(s.daily_count, 1);
    assert_eq!(s.daily_date, key(11));
    assert_eq!(counts(&s), vec![0, 0, 0, 0, 0, 1, 1]);
    s.record_focus_completion(&calendar(13));
    assert_eq!(s.streak_count, 1);
    assert_eq!(s.total_focus_sessions, 3);
    assert_eq!(counts(&s), vec![0, 0, 0, 1, 1, 0, 1]);
}

#[test]
fn rollover_resets_day_and_streak() {
    let mut s = PersistedStats {
        daily_count: 3,
        daily_date: key(8),
        streak_count: 4,
        last_completed_date: Some(key(8)),
        weekly: vec![day(8, 3)],
        total_focus_sessions: 9,
    };
    s.roll_over_day(&calendar(9));
    assert_eq!(s.daily_count, 0);
    assert_eq!(s.streak_count, 4);
    assert_eq!(s.daily_date, key(9));
    assert_eq!(counts(&s), vec![0, 0, 0, 0, 0, 3, 0]);
    s.roll_over_day(&calendar(9));
    assert_eq!(s.streak_count, 4);
    s.roll_over_day(&calendar(11));
    assert_eq!(s.streak_count, 0);
    assert_eq!(s.total_focus_sessions, 9);
}

#[test]
fn load_rebuilds_history_on_the_same_day() {
    let mut s = PersistedStats {
        daily_count: 2,
        daily_date: key(10),
        streak_count: 1,
        last_completed_date: Some(key(10)),
        weekly: vec![day(10, 2), day(1, 5)],
        total_focus_sessions: 7,
    };
    s.normalize_on_load(&calendar(10));
    assert_eq!(s.daily_count, 2);
    assert_eq!(s.streak_count, 1);
    assert_eq!(s.weekly.len(), 7);
    assert_eq!(counts(&s), vec![0, 0, 0, 0, 0, 0, 2]);
}

#[test]
fn counts_saturate() {
    let cal = calendar(10);
    let mut s = PersistedStats {
        daily_count: u32::MAX,
        daily_date: key(10),
        streak_count: u32::MAX,
        last_completed_date: Some(key(9)),
        weekly: vec![day(10, u32::MAX)],
        total_focus_sessions: u32::MAX,
    };
    s.record_focus_completion(&cal);
    assert_eq!(s.daily_count, u32::MAX);
    assert_eq!(s.streak_count, u32::MAX);
    assert_eq!(s.total_focus_sessions, u32::MAX);
    assert_eq!(s.weekly[6].count, u32::MAX);
}

#[test]
fn labels() {
    assert!(goal_met(4, 4));
    assert!(!goal_met(3, 4));
    assert_eq!(daily_goal_caption(4, 4), "DAILY GOAL • MET");
    assert_eq!(daily_goal_caption(1, 4), "DAILY GOAL");
    assert_eq!(daily_progress_label(3, 4), "03 / 04");
    assert_eq!(daily_sessions_label(3, 12), "03 / 12 SESSIONS");
    assert_eq!(streak_label(5), "5 DAYS");
    assert_eq!(total_sessions_label(7), "07");
    assert_eq!(total_sessions_label(123), "123");
    assert_eq!(busiest_day_count(&vec![]), 0);
    assert_eq!(busiest_day_count(&vec![day(1, 2), day(2, 7), day(3, 5)]), 7);
}

#[test]
fn finished_focus_phase_is_recorded() {
    let settings = PersistedSettings::default();
    let cal = calendar(10);
    let mut stats = PersistedStats::fresh(&cal);
    let mut timer = PersistedTimerState {
        time_remaining: 5,
        is_running: true,
        is_focus: true,
        current_round: 1,
        target_end_ms: Some(5_000),
        has_started: true,
    };
    assert_eq!(advance(&mut timer, &mut stats, &settings, 1_000, &cal), TimerEvent::Counting);
    assert_eq!(stats.total_focus_sessions, 0);
    assert!(matches!(advance(&mut timer, &mut stats, &settings, 5_000, &cal), TimerEvent::Finished(_)));
    assert_eq!(stats.total_focus_sessions, 1);
    assert_eq!(stats.daily_count, 1);
    timer.toggle(6_000);
    let ev = resume(&mut timer, &mut stats, &settings, 10_000_000, &cal);
    assert!(matches!(ev, TimerEvent::Finished(e) if !e.was_focus));
    assert_eq!(stats.total_focus_sessions, 1);
    assert_eq!(timer.current_round, 2);
}

#[test]
fn day_keys_sort_like_days() {
    let days = [(0, 1, 1), (999, 12, 31), (2023, 12, 31), (2024, 1, 1), (2024, 1, 2), (2024, 2, 1), (2024, 10, 1), (9999, 12, 31)];
    for a in days {
        for b in days {
            let ka = date_key(a.0, a.1, a.2);
            let kb = date_key(b.0, b.1, b.2);
            assert_eq!(ka < kb, a < b, "{} {}", ka, kb);
            assert_eq!(ka == kb, a == b);
        }
    }
}

#[test]
fn todays_bar_follows_the_counter() {
    let mut s = PersistedStats::fresh(&calendar(10));
    for today in [10, 10, 11, 11, 11, 13] {
        let cal = calendar(today);
        let before = s.clone();
        s.record_focus_completion(&cal);
        assert_eq!(s.weekly.len(), 7);
        assert_eq!(s.weekly[6].date, s.daily_date);
        assert_eq!(s.weekly[6].count, s.daily_count);
        if before.last_completed_date.as_ref() == Some(&cal.today) {
            assert_eq!(s.last_completed_date, before.last_completed_date);
            assert_eq!(s.daily_date, before.daily_date);
            assert_eq!(s.streak_count, before.streak_count);
        }
    }
    assert_eq!(s.daily_count, 1);
    assert_eq!(s.streak_count, 1);
}
