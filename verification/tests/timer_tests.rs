use tomato_monster::store::{BadgesState, StatEntry, StoreData, Task, TimerPhase, TimerState};
use tomato_monster::timer::{
    abandon, claim_extra_time, clamp_long_break_minutes, compute_streak, consume_quota, get_quota,
    handle_phase_end_if_due, normalize_long_break_every, pause, record_break_entry_milestone,
    reset, resume, roll_over_tasks_if_needed, should_take_long_break, start_break, start_focus,
    tray_title, Durations, Effect,
};

const DUR: Durations = Durations {
    focus_ms: 25 * 60 * 1000,
    break_ms: 5 * 60 * 1000,
    last_minute_ms: 60_000,
    test_mode: false,
};
const T: &str = "2026-07-17";

fn data_with_task() -> StoreData {
    let mut d = StoreData::default();
    d.tasks_today.date = T.into();
    d.tasks_today.tasks.push(Task {
        id: "1".to_string(),
        title: "测试任务".into(),
        planned: 4,
        is_current: true,
        ..Task::default()
    });
    d
}

fn set_completed(d: &mut StoreData, day: &str, completed: u32) {
    let rotten = d.stats.get(day).map(|e| e.rotten).unwrap_or(0);
    d.stats.upsert(day.to_string(), StatEntry { completed, rotten });
}

#[test]
fn quota_lazy_day_reset() {
    let mut d = StoreData::default();
    d.quota_state.date = "2026-07-16".into();
    d.quota_state.used = 3;
    let q = get_quota(&d, T);
    assert_eq!((q.used, q.remaining), (0, 3));
    assert!(consume_quota(&mut d, T));
    assert_eq!(d.badges_state.last_extend_date.as_deref(), Some(T));
}

#[test]
fn quota_exhaustion() {
    let mut d = StoreData::default();
    for _ in 0..3 {
        assert!(consume_quota(&mut d, T));
    }
    assert!(!consume_quota(&mut d, T));
}

#[test]
fn long_break_trigger() {
    let mut d = StoreData::default();
    assert!(!should_take_long_break(0, &d));
    assert!(should_take_long_break(4, &d));
    assert!(!should_take_long_break(5, &d));
    assert!(should_take_long_break(8, &d));
    d.settings.long_break_enabled = false;
    assert!(!should_take_long_break(4, &d));
}

#[test]
fn clamps_match_old_behavior() {
    assert_eq!(clamp_long_break_minutes(0), 20);
    assert_eq!(clamp_long_break_minutes(40), 30);
    assert_eq!(clamp_long_break_minutes(10), 15);
    assert_eq!(normalize_long_break_every(0), 4);
    assert_eq!(normalize_long_break_every(1), 2);
    assert_eq!(normalize_long_break_every(99), 12);
}

#[test]
fn streak_computation() {
    let mut raw = BadgesState::default();
    raw.anchor_date = Some("2026-07-10".into());
    assert_eq!(compute_streak(&raw, T, 0, 1), 7);
    assert_eq!(compute_streak(&raw, T, 1, 1), 0);
    assert_eq!(compute_streak(&raw, T, 0, 0), 7);
    raw.last_extend_date = Some("2026-07-14".into());
    assert_eq!(compute_streak(&raw, T, 0, 1), 3);
}

#[test]
fn milestone_awarded_only_on_first_tomato() {
    let mut d = StoreData::default();
    d.badges_state.anchor_date = Some("2026-07-01".into());
    set_completed(&mut d, T, 1);
    assert!(record_break_entry_milestone(&mut d, T));
    assert_eq!(d.badges_state.badges, 1);
    set_completed(&mut d, T, 2);
    assert!(!record_break_entry_milestone(&mut d, T));
}

#[test]
fn abandon_grace_period() {
    let now = 1_000_000_000;
    let mut d = data_with_task();
    start_focus(&mut d, now, &DUR);
    abandon(&mut d, now + 5_000, T);
    assert_eq!(d.stats.get(T).map(|e| e.rotten).unwrap_or(0), 0);
    assert_eq!(d.timer_state.state, TimerPhase::Idle);

    start_focus(&mut d, now, &DUR);
    abandon(&mut d, now + 15_000, T);
    assert_eq!(d.stats.get(T).unwrap().rotten, 1);
    assert_eq!(d.tasks_today.tasks[0].rotten, 1);
}

#[test]
fn no_free_exit_from_break() {
    let mut d = StoreData::default();
    let now = 1_000_000_000;
    set_completed(&mut d, T, 1);
    start_break(&mut d, now, T, &DUR);
    assert_eq!(d.timer_state.state, TimerPhase::Breaking);
    reset(&mut d, false);
    assert_eq!(d.timer_state.state, TimerPhase::Breaking);
    abandon(&mut d, now, T);
    assert_eq!(d.timer_state.state, TimerPhase::Breaking);
    pause(&mut d, now);
    assert_eq!(d.timer_state.state, TimerPhase::Breaking);
}

#[test]
fn overtime_flow() {
    let mut d = StoreData::default();
    let now = 1_000_000_000;
    set_completed(&mut d, T, 1);
    start_break(&mut d, now, T, &DUR);
    let r = claim_extra_time(&mut d, 5 * 60 * 1000, now, T);
    assert!(r.ok);
    assert_eq!(d.timer_state.state, TimerPhase::Focusing);
    assert_eq!(get_quota(&d, T).used, 1);
    d.quota_state.used = 3;
    let r = claim_extra_time(&mut d, 5000, now, T);
    assert_eq!(r.reason.as_deref(), Some("quota-exhausted"));
}

#[test]
fn focus_end_records_and_starts_break() {
    let mut d = data_with_task();
    let now = 1_000_000_000;
    start_focus(&mut d, now, &DUR);
    let effects = handle_phase_end_if_due(&mut d, now + DUR.focus_ms, T, &DUR);
    assert_eq!(d.stats.get(T).unwrap().completed, 1);
    assert_eq!(d.tasks_today.tasks[0].used, 1);
    assert_eq!(d.timer_state.state, TimerPhase::Breaking);
    assert_eq!(d.timer_state.break_kind.as_deref(), Some("short"));
    assert!(effects.contains(&Effect::Chime));
    assert!(effects.contains(&Effect::WhiteNoiseStart));
    let effects = handle_phase_end_if_due(&mut d, now, T, &DUR);
    assert!(effects.is_empty());
}

#[test]
fn fourth_tomato_gets_long_break() {
    let mut d = StoreData::default();
    set_completed(&mut d, T, 3);
    let now = 1_000_000_000;
    start_focus(&mut d, now, &DUR);
    handle_phase_end_if_due(&mut d, now + DUR.focus_ms, T, &DUR);
    assert_eq!(d.timer_state.break_kind.as_deref(), Some("long"));
    assert_eq!(d.timer_state.end_time.unwrap() - (now + DUR.focus_ms), 20 * 60 * 1000);
}

#[test]
fn break_end_autostarts_or_resets() {
    let mut d = StoreData::default();
    let now = 1_000_000_000;
    set_completed(&mut d, T, 1);
    start_break(&mut d, now, T, &DUR);
    let end = d.timer_state.end_time.unwrap();
    let effects = handle_phase_end_if_due(&mut d, end, T, &DUR);
    assert_eq!(d.timer_state.state, TimerPhase::Focusing);
    assert!(effects.contains(&Effect::WhiteNoiseStop));

    d.settings.auto_start_next_focus = false;
    start_break(&mut d, now, T, &DUR);
    let end = d.timer_state.end_time.unwrap();
    handle_phase_end_if_due(&mut d, end, T, &DUR);
    assert_eq!(d.timer_state.state, TimerPhase::Idle);
}

#[test]
fn pause_resume_preserves_remaining() {
    let mut d = StoreData::default();
    let now = 1_000_000_000;
    start_focus(&mut d, now, &DUR);
    pause(&mut d, now + 60_000);
    assert_eq!(d.timer_state.paused_remaining, Some(DUR.focus_ms - 60_000));
    resume(&mut d, now + 300_000);
    assert_eq!(d.timer_state.end_time, Some(now + 300_000 + DUR.focus_ms - 60_000));
}

#[test]
fn task_rollover_archives_by_id() {
    let mut d = data_with_task();
    d.tasks_today.date = "2026-07-16".into();
    roll_over_tasks_if_needed(&mut d, T);
    assert_eq!(d.tasks_today.date, T);
    assert!(d.tasks_today.tasks.is_empty());
    assert_eq!(d.tasks_archive.get("2026-07-16").unwrap().len(), 1);
}

#[test]
fn tray_title_formats() {
    let mut s = TimerState::default();
    assert_eq!(tray_title(&s, 0), None);
    s.state = TimerPhase::Focusing;
    s.end_time = Some(24 * 60 * 1000 + 59_000);
    assert_eq!(tray_title(&s, 0).unwrap(), "24:59");
    s.state = TimerPhase::Breaking;
    s.end_time = Some(4 * 60 * 1000 + 32_000);
    assert_eq!(tray_title(&s, 0).unwrap(), "休息 4:32");
}
