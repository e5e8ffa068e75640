use chrono::Datelike;
use tomato_monster::audio::{AudioAction, AudioCmd, NoisePlan};
use tomato_monster::date::{days_between_str, prior_day_str, MAX_DAY, MIN_DAY};
use tomato_monster::date_map::DateMap;
use tomato_monster::store::{Settings, StatEntry, StoreData, Task, TimerPhase, TimerState};
use tomato_monster::text::{decimal, str_eq, str_le, str_lt};
use tomato_monster::timer::{
    abandon, break_duration_ms, claim_extra_time, consume_quota, durations_for, get_badges_view,
    handle_phase_end_if_due, record_break_entry_milestone, reset_quota, roll_over_tasks_if_needed,
    countdown_title, settle_phase_end, snapshot, start_focus, tray_title, update_settings,
    Durations, Effect,
};
use tomato_monster::backup::backup_payload;

const T: &str = "2026-07-17";

fn dur() -> Durations {
    durations_for(false)
}

#[test]
fn day_range_matches_chrono() {
    assert_eq!(MIN_DAY, chrono::NaiveDate::MIN.num_days_from_ce());
    assert_eq!(MAX_DAY, chrono::NaiveDate::MAX.num_days_from_ce());
}

#[test]
fn prior_day_and_days_between() {
    assert_eq!(prior_day_str("2026-03-01"), "2026-02-28");
    assert_eq!(prior_day_str("2024-03-01"), "2024-02-29");
    assert_eq!(prior_day_str("2026-01-01"), "2025-12-31");
    assert_eq!(prior_day_str("not a date"), "not a date");
    assert_eq!(days_between_str("2026-07-10", "2026-07-17"), 7);
    assert_eq!(days_between_str("2026-07-17", "2026-07-10"), -7);
    assert_eq!(days_between_str("2026-07-17", "garbage"), 0);
}

#[test]
fn text_order_and_decimal() {
    assert!(str_eq("abc", "abc"));
    assert!(!str_eq("abc", "abd"));
    assert!(str_lt("2025-12-31", "2026-01-01"));
    assert!(!str_lt("2026-01-01", "2026-01-01"));
    assert!(str_lt("2026", "2026-01"));
    assert!(str_le("2026-01-01", "2026-01-01"));
    assert_eq!(decimal(0), "0");
    assert_eq!(decimal(1234567), "1234567");
}

#[test]
fn date_map_operations() {
    let mut m: DateMap<u32> = DateMap::new();
    assert_eq!(m.len(), 0);
    assert_eq!(m.min_key(), None);
    m.upsert("2026-07-02".to_string(), 2);
    m.upsert("2026-06-30".to_string(), 1);
    m.upsert("2026-07-02".to_string(), 5);
    assert_eq!(m.len(), 2);
    assert_eq!(m.get("2026-07-02"), Some(&5));
    assert_eq!(m.min_key().as_deref(), Some("2026-06-30"));
    m.upsert("2026-07-01".to_string(), 3);
    let keys: Vec<&str> = m.entries().iter().map(|(k, _)| k.as_str()).collect();
    assert_eq!(keys, vec!["2026-06-30", "2026-07-01", "2026-07-02"]);
    assert_eq!(m.remove("2026-07-01"), Some(3));
    m.retain_from("2026-07-01");
    assert_eq!(m.len(), 1);
    assert_eq!(m.get("2026-06-30"), None);
    assert_eq!(m.remove("2026-07-02"), Some(5));
    assert_eq!(m.remove("2026-07-02"), None);
}

#[test]
fn stats_keep_a_year() {
    let mut d = StoreData::default();
    d.stats.upsert("2025-07-15".to_string(), StatEntry { completed: 1, rotten: 0 });
    d.stats.upsert("2025-07-16".to_string(), StatEntry { completed: 2, rotten: 0 });
    d.stats.upsert("2025-07-17".to_string(), StatEntry { completed: 3, rotten: 0 });
    let now = 1_000_000_000;
    start_focus(&mut d, now, &dur());
    handle_phase_end_if_due(&mut d, now + dur().focus_ms, T, &dur());
    assert_eq!(d.stats.get("2025-07-15"), None);
    assert_eq!(d.stats.get("2025-07-16").unwrap().completed, 2);
    assert_eq!(d.stats.get(T).unwrap().completed, 1);
}

#[test]
fn durations_in_both_modes() {
    let d = durations_for(true);
    assert_eq!((d.focus_ms, d.break_ms, d.last_minute_ms), (15_000, 30_000, 5_000));
    let d = durations_for(false);
    assert_eq!((d.focus_ms, d.break_ms, d.last_minute_ms), (1_500_000, 300_000, 60_000));
}

#[test]
fn test_mode_breaks_are_short() {
    let d = StoreData::default();
    assert_eq!(break_duration_ms("long", &d, &durations_for(true)), 30_000);
    assert_eq!(break_duration_ms("long", &d, &dur()), 20 * 60 * 1000);
    assert_eq!(break_duration_ms("short", &d, &dur()), 5 * 60 * 1000);
}

#[test]
fn overtime_refusals() {
    let mut d = StoreData::default();
    let r = claim_extra_time(&mut d, 0, 0, T);
    assert_eq!(r.reason.as_deref(), Some("invalid-ms"));
    let r = claim_extra_time(&mut d, 1000, 0, T);
    assert_eq!(r.reason.as_deref(), Some("wrong-state"));
    assert!(!r.ok);
    assert_eq!(d.quota_state.used, 0);
}

#[test]
fn quota_reset_and_streak_end() {
    let mut d = StoreData::default();
    d.badges_state.anchor_date = Some("2026-07-01".into());
    assert!(consume_quota(&mut d, T));
    assert_eq!(get_badges_view(&d, T).current_streak, 0);
    reset_quota(&mut d, T);
    assert_eq!(d.quota_state.used, 0);
    assert_eq!(d.quota_state.date, T);
}

#[test]
fn one_badge_per_day() {
    let mut d = StoreData::default();
    d.badges_state.anchor_date = Some("2026-07-01".into());
    d.stats.upsert(T.to_string(), StatEntry { completed: 1, rotten: 0 });
    assert!(record_break_entry_milestone(&mut d, T));
    assert!(!record_break_entry_milestone(&mut d, T));
    assert_eq!(d.badges_state.badges, 1);
    assert_eq!(d.badges_state.unlocked_dates, vec![T.to_string()]);
}

#[test]
fn badge_brings_celebration() {
    let mut d = StoreData::default();
    d.badges_state.anchor_date = Some("2026-07-01".into());
    let now = 1_000_000_000;
    start_focus(&mut d, now, &dur());
    let effects = handle_phase_end_if_due(&mut d, now + dur().focus_ms, T, &dur());
    assert!(effects.contains(&Effect::Celebration));
    assert_eq!(d.timer_state.love_monster_until, Some(now + dur().focus_ms + 15_000));
    assert_eq!(d.badges_state.badges, 1);
}

#[test]
fn anchor_is_earliest_stat_day() {
    let mut d = StoreData::default();
    d.stats.upsert("2026-07-05".to_string(), StatEntry { completed: 1, rotten: 0 });
    d.stats.upsert("2026-06-20".to_string(), StatEntry { completed: 1, rotten: 0 });
    assert!(consume_quota(&mut d, T));
    assert_eq!(d.badges_state.anchor_date.as_deref(), Some("2026-06-20"));
}

#[test]
fn rollover_is_idempotent_and_skips_known_ids() {
    let mut d = StoreData::default();
    d.tasks_today.date = "2026-07-16".into();
    d.tasks_today.tasks.push(Task { id: "1".into(), title: "a".into(), ..Task::default() });
    d.tasks_today.tasks.push(Task { id: "2".into(), title: "b".into(), ..Task::default() });
    d.tasks_archive.upsert(
        "2026-07-16".to_string(),
        vec![Task { id: "1".into(), title: "old".into(), ..Task::default() }],
    );
    roll_over_tasks_if_needed(&mut d, T);
    let archived = d.tasks_archive.get("2026-07-16").unwrap();
    assert_eq!(archived.len(), 2);
    assert_eq!(archived[0].title, "old");
    assert_eq!(archived[1].id, "2");
    roll_over_tasks_if_needed(&mut d, T);
    assert_eq!(d.tasks_archive.get("2026-07-16").unwrap().len(), 2);
    assert_eq!(d.tasks_today.date, T);
}

#[test]
fn abandon_after_grace_without_focus_started() {
    let mut d = StoreData::default();
    d.timer_state.phase = Some("focus".into());
    d.timer_state.state = TimerPhase::Focusing;
    abandon(&mut d, 0, T);
    assert_eq!(d.stats.get(T).unwrap().rotten, 1);
    assert_eq!(d.timer_state.state, TimerPhase::Idle);
}

#[test]
fn settings_are_normalized() {
    let mut d = StoreData::default();
    let mut s = Settings::default();
    s.long_break_minutes = 0;
    s.long_break_every = 50;
    s.theme = "default".into();
    update_settings(&mut d, s);
    assert_eq!(d.settings.long_break_minutes, 20);
    assert_eq!(d.settings.long_break_every, 12);
    assert_eq!(d.settings.theme, "default");
}

#[test]
fn snapshot_reports_the_day() {
    let mut d = StoreData::default();
    d.stats.upsert(T.to_string(), StatEntry { completed: 2, rotten: 1 });
    d.quota_state.date = T.into();
    d.quota_state.used = 5;
    let s = snapshot(&d, 42, T, &dur());
    assert_eq!(s.today, T);
    assert_eq!(s.today_stats, StatEntry { completed: 2, rotten: 1 });
    assert_eq!((s.quota.used, s.quota.remaining, s.quota.limit), (3, 0, 3));
    assert_eq!(s.badges.goal, 7);
    assert_eq!(s.now, 42);
    assert_eq!(s.timer.state, TimerPhase::Idle);
}

#[test]
fn tray_title_paused_and_rounding() {
    let mut s = TimerState::default();
    s.state = TimerPhase::Paused;
    s.paused_remaining = Some(61_001);
    assert_eq!(tray_title(&s, 0).unwrap(), "⏸ 01:02");
    s.paused_remaining = None;
    assert_eq!(tray_title(&s, 0), None);
    s.state = TimerPhase::Focusing;
    s.end_time = Some(100);
    assert_eq!(tray_title(&s, 5_000).unwrap(), "00:00");
    s.end_time = Some(120 * 60 * 1000);
    assert_eq!(tray_title(&s, 0).unwrap(), "120:00");
}

#[test]
fn noise_plan_decisions() {
    let mut p = NoisePlan::new();
    assert_eq!(p.on_command(AudioCmd::NoiseStart { delay_ms: 1000 }, 5), AudioAction::Nothing);
    assert_eq!(p.pending_at, Some(1005));
    p.on_command(AudioCmd::NoiseStart { delay_ms: 10 }, 6);
    assert_eq!(p.pending_at, Some(1005));
    assert!(!p.take_due(1004));
    assert!(p.take_due(1005));
    assert_eq!(p.pending_at, None);
    p.noise_started(true);
    assert_eq!(p.on_command(AudioCmd::Chime, 2000), AudioAction::PlayChime);
    assert_eq!(p.on_command(AudioCmd::SoftNudge, 2000), AudioAction::PlayNudge);
    assert_eq!(p.on_command(AudioCmd::NoiseStop, 2000), AudioAction::FadeOutNoise);
    assert!(!p.playing);
    assert_eq!(p.on_command(AudioCmd::NoiseStop, 2000), AudioAction::Nothing);
}

#[test]
fn settled_phase_end_counts_the_tomato() {
    let mut d = StoreData::default();
    let now = 1_000_000_000;
    start_focus(&mut d, now, &dur());
    let effects = settle_phase_end(&mut d, now + dur().focus_ms, T, &dur()).unwrap();
    assert!(effects.contains(&Effect::Chime));
    assert_eq!(d.stats.get(T).unwrap().completed, 1);
    assert_eq!(d.timer_state.state, TimerPhase::Breaking);
}

#[test]
fn settled_phase_end_refuses_a_full_badge_count() {
    let mut d = StoreData::default();
    d.badges_state.badges = u32::MAX;
    let now = 1_000_000_000;
    start_focus(&mut d, now, &dur());
    let before = format!("{:?}", d);
    assert!(settle_phase_end(&mut d, now + dur().focus_ms, T, &dur()).is_none());
    assert_eq!(format!("{:?}", d), before);
}

#[test]
fn backup_payload_carries_the_exported_keys() {
    let mut d = StoreData::default();
    d.stats.upsert(T.to_string(), StatEntry { completed: 4, rotten: 1 });
    d.last_category = Some("学习".to_string());
    d.notion_export_log.upsert(T.to_string(), "{}".to_string());
    d.timer_state.state = TimerPhase::Focusing;
    let p = backup_payload(&d);
    assert_eq!(p.schema_version, 2);
    assert_eq!(p.stats.get(T).unwrap().completed, 4);
    assert_eq!(p.last_category.as_deref(), Some("学习"));
    assert_eq!(p.notion_export_log.len(), 1);
    assert_eq!(p.settings.theme, d.settings.theme);
}

#[test]
fn countdown_title_cycles_from_25_minutes() {
    assert_eq!(countdown_title(0), "25:00");
    assert_eq!(countdown_title(1), "24:59");
    assert_eq!(countdown_title(1499), "00:01");
    assert_eq!(countdown_title(1500), "25:00");
    assert_eq!(countdown_title(1500 * 3 + 61), "23:59");
}
