use focusflow::settings::{break_secs, focus_secs, phase_secs, PersistedSettings};
use focusflow::timer::{clock_text, session_label, PersistedTimerState, PhaseEnd, TimerEvent};

fn settings() -> PersistedSettings {
    PersistedSettings::default()
}

fn paused(time_remaining: u32) -> PersistedTimerState {
    PersistedTimerState {
        time_remaining,
        is_running: false,
        is_focus: true,
        current_round: 1,
        target_end_ms: None,
        has_started: false,
    }
}

#[test]
fn default_settings() {
    let s = settings();
    assert_eq!(s.focus_mins, 25);
    assert_eq!(s.break_mins, 5);
    assert_eq!(s.total_rounds, 4);
    assert!(s.notifications_enabled);
    assert!(s.sound_enabled);
    assert!(!s.auto_start_next);
    assert!(!s.theme_dark);
}

#[test]
fn phase_lengths_saturate() {
    let mut s = settings();
    assert_eq!(focus_secs(&s), 1500);
    assert_eq!(break_secs(&s), 300);
    assert_eq!(phase_secs(&s, true), 1500);
    assert_eq!(phase_secs(&s, false), 300);
    s.focus_mins = u32::MAX;
    assert_eq!(focus_secs(&s), u32::MAX);
    s.break_mins = 71_582_788;
    assert_eq!(break_secs(&s), 4_294_967_280);
    s.break_mins = 71_582_789;
    assert_eq!(break_secs(&s), u32::MAX);
}

#[test]
fn fresh_and_restored() {
    let t = PersistedTimerState::fresh(&settings());
    assert_eq!(t, PersistedTimerState { time_remaining: 1500, ..paused(1500) });
    let mut s = settings();
    s.focus_mins = 0;
    let t = PersistedTimerState::fresh(&s);
    assert_eq!(t.time_remaining, 0);
    let r = t.restored();
    assert_eq!(r.time_remaining, 1);
    let odd = PersistedTimerState { current_round: 0, is_running: true, has_started: false, ..paused(30) };
    let r = odd.restored();
    assert_eq!(r.current_round, 1);
    assert!(r.has_started);
    assert_eq!(r.time_remaining, 30);
}

#[test]
fn start_then_pause() {
    let mut t = paused(90);
    t.toggle(1_000);
    assert!(t.is_running);
    assert!(t.has_started);
    assert_eq!(t.target_end_ms, Some(91_000));
    t.toggle(5_000);
    assert_eq!(t, PersistedTimerState { has_started: true, ..paused(90) });
}

#[test]
fn start_with_no_time_left_counts_one_second() {
    let mut t = paused(0);
    t.toggle(10);
    assert_eq!(t.target_end_ms, Some(1_010));
}

#[test]
fn start_saturates_deadline() {
    let mut t = paused(10);
    t.toggle(u64::MAX - 5);
    assert_eq!(t.target_end_ms, Some(u64::MAX));
}

#[test]
fn tick_counts_down_rounding_up() {
    let s = settings();
    let mut t = paused(90);
    t.toggle(0);
    assert_eq!(t.tick(&s, 500), TimerEvent::Counting);
    assert_eq!(t.time_remaining, 90);
    assert_eq!(t.tick(&s, 1_000), TimerEvent::Counting);
    assert_eq!(t.time_remaining, 89);
    assert_eq!(t.tick(&s, 89_001), TimerEvent::Counting);
    assert_eq!(t.time_remaining, 1);
    assert_eq!(t.tick(&s, 89_999), TimerEvent::Counting);
    assert_eq!(t.time_remaining, 1);
}

#[test]
fn tick_ends_focus_and_enters_break() {
    let s = settings();
    let mut t = paused(60);
    t.toggle(0);
    let ev = t.tick(&s, 60_000);
    assert_eq!(ev, TimerEvent::Finished(PhaseEnd { was_focus: true, notify: true, beep: true }));
    assert!(!t.is_focus);
    assert!(!t.is_running);
    assert_eq!(t.target_end_ms, None);
    assert_eq!(t.time_remaining, 300);
    assert_eq!(t.current_round, 1);
}

#[test]
fn break_end_moves_to_next_round() {
    let mut s = settings();
    s.auto_start_next = true;
    s.notifications_enabled = false;
    let mut t = PersistedTimerState {
        is_focus: false,
        is_running: true,
        has_started: true,
        target_end_ms: Some(1_000),
        current_round: 3,
        ..paused(1)
    };
    let ev = t.tick(&s, 2_000);
    assert_eq!(ev, TimerEvent::Finished(PhaseEnd { was_focus: false, notify: false, beep: true }));
    assert!(t.is_focus);
    assert!(t.is_running);
    assert_eq!(t.current_round, 4);
    assert_eq!(t.time_remaining, 1500);
    assert_eq!(t.target_end_ms, Some(2_000 + 1_500_000));
}

#[test]
fn auto_start_with_zero_length_break() {
    let mut s = settings();
    s.auto_start_next = true;
    s.break_mins = 0;
    let mut t = PersistedTimerState { is_running: true, has_started: true, target_end_ms: Some(100), ..paused(5) };
    t.tick(&s, 100);
    assert_eq!(t.time_remaining, 1);
    assert_eq!(t.target_end_ms, Some(100));
}

#[test]
fn tick_schedules_missing_deadline_and_ignores_paused() {
    let s = settings();
    let mut t = PersistedTimerState { is_running: true, has_started: true, ..paused(42) };
    assert_eq!(t.tick(&s, 1_000), TimerEvent::Scheduled);
    assert_eq!(t.target_end_ms, Some(43_000));
    let mut p = paused(42);
    let before = p;
    assert_eq!(p.tick(&s, 1_000_000), TimerEvent::Idle);
    assert_eq!(p, before);
}

#[test]
fn catch_up_keeps_running_phase() {
    let s = settings();
    let mut t = PersistedTimerState { is_running: true, has_started: true, target_end_ms: Some(90_000), ..paused(90) };
    let before = t;
    assert_eq!(t.catch_up(&s, 10_000), TimerEvent::Counting);
    assert_eq!(t, before);
    assert!(matches!(t.catch_up(&s, 90_000), TimerEvent::Finished(_)));
    assert!(!t.is_focus);
}

#[test]
fn reset_and_modes() {
    let s = settings();
    let mut t = PersistedTimerState { is_running: true, has_started: true, target_end_ms: Some(5), ..paused(7) };
    t.reset(&s);
    assert_eq!(t, PersistedTimerState { has_started: true, ..paused(1500) });
    let once = t;
    t.reset(&s);
    assert_eq!(t, once);
    t.set_break_mode(&s);
    assert!(!t.is_focus);
    assert_eq!(t.time_remaining, 300);
    t.set_focus_mode(&s);
    assert!(t.is_focus);
    assert_eq!(t.time_remaining, 1500);
}

#[test]
fn settings_change_reaches_paused_timer_only() {
    let mut s = settings();
    s.focus_mins = 50;
    let mut p = paused(12);
    p.apply_settings(&s);
    assert_eq!(p.time_remaining, 3000);
    let mut r = PersistedTimerState { is_running: true, has_started: true, target_end_ms: Some(9), ..paused(12) };
    let before = r;
    r.apply_settings(&s);
    assert_eq!(r, before);
}

#[test]
fn note_running_marks_started() {
    let mut t = PersistedTimerState { is_running: true, ..paused(3) };
    t.note_running();
    assert!(t.has_started);
    let mut p = paused(3);
    p.note_running();
    assert!(!p.has_started);
}

#[test]
fn texts() {
    assert_eq!(clock_text(1500), "25:00");
    assert_eq!(clock_text(59), "00:59");
    assert_eq!(clock_text(6000), "100:00");
    assert_eq!(clock_text(u32::MAX), format!("{:02}:{:02}", u32::MAX / 60, u32::MAX % 60));
    assert_eq!(session_label(2, 4), "SESSION 2/4");
    let mut t = paused(1499);
    assert_eq!(t.document_title(), "FocusFlow • Pomodoro");
    t.has_started = true;
    assert_eq!(t.document_title(), "24:59 • Paused");
    t.is_running = true;
    assert_eq!(t.document_title(), "24:59 • Focus");
    t.is_focus = false;
    assert_eq!(t.document_title(), "24:59 • Break");
    let end = PhaseEnd { was_focus: true, notify: true, beep: false };
    assert_eq!(end.notification_title(), "Focus session complete");
    assert_eq!(end.notification_body(), "Time for a break.");
    let end = PhaseEnd { was_focus: false, ..end };
    assert_eq!(end.notification_title(), "Break complete");
    assert_eq!(end.notification_body(), "Time to get back to focus.");
}

#[test]
fn start_up_settles_saved_state() {
    let s = settings();
    let stale = PersistedTimerState { target_end_ms: Some(5), ..paused(30) };
    let mut t = stale.restored();
    t.note_running();
    t.catch_up(&s, 1_000);
    t.apply_settings(&s);
    assert_eq!(t.target_end_ms, None);
    assert!(!t.is_running);
    let running = PersistedTimerState { is_running: true, current_round: 0, ..paused(0) };
    let mut t = running.restored();
    t.note_running();
    assert_eq!(t.catch_up(&s, 1_000), TimerEvent::Scheduled);
    t.apply_settings(&s);
    assert!(t.is_running && t.has_started);
    assert_eq!(t.target_end_ms, Some(2_000));
    assert_eq!(t.current_round, 1);
}
