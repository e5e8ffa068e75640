//! Properties of the timer that hold across its operations.

use vstd::prelude::*;
use crate::audio::{
    command_action, noise_due, plan_after_command, single_noise, AudioAction, AudioCmd, NoisePlan,
};
use crate::backup::{
    import_error, restored, without_browser_only, BackupData, BackupDocument, BackupField, BackupText,
};
use crate::date_map::text_map_view;
use crate::store::{
    archive_view, idle_timer, SettingsView, BACKUP_SCHEMA_VERSION, BadgesStateView, StatEntry, StoreDataView, TaskView, TimerPhase, TimerStateView,
    DAILY_EXTEND_LIMIT, STREAK_GOAL,
};
use crate::date::{prior_day_text, ymd_parse};
use crate::text::{text_le, text_lt};
use crate::timer::{
    after_abandon, after_consume, after_milestone, after_overtime, entry_or_default, keeps_today,
    lemma_bump_counts_today, takes_long_break, today_completed, after_phase_end, archived_with,
    current_task, in_grace, lemma_current_task_index, milestone_earned, overtime_refusal, not_archived, paused_timer, phase_due,
    phase_end_effects, quota_used_on, reset_timer, resumed_timer, retention_cutoff, rolled_over,
    stats_after_bump, streak, task_bump_fits, task_ids, tray_text, with_anchor, Durations,
    EffectView, StatCounter,
};

verus! {

/// There is no free way out of a break: while a break runs or is paused,
/// a reset without force, a pause and an abandon all leave the data as it is.
pub proof fn law_no_free_exit_from_break(d: StoreDataView, now: i64, today: Seq<char>)
    requires
        d.timer_state.phase == Some("break"@),
        d.timer_state.state == TimerPhase::Breaking || d.timer_state.state == TimerPhase::Paused,
    ensures
        reset_timer(d.timer_state, false) == d.timer_state,
        paused_timer(d.timer_state, now) == d.timer_state,
        after_abandon(d, now, today) == d,
{
    reveal_strlit("break");
    reveal_strlit("focus");
    assert("break"@ != "focus"@) by {
        assert("break"@[0] != "focus"@[0]);
    }
}

/// Pausing a focus and resuming it later keeps the time that was left: the
/// focus goes on with its end moved by the paused time, and everything else
/// is as it was before the pause.
pub proof fn law_pause_resume_preserves_remaining(t: TimerStateView, end: i64, paused_at: i64, resumed_at: i64)
    requires
        t.state == TimerPhase::Focusing,
        t.end_time == Some(end),
        paused_at <= end,
        end - paused_at <= i64::MAX,
        i64::MIN <= resumed_at + (end - paused_at) <= i64::MAX,
    ensures
        paused_timer(t, paused_at).paused_remaining == Some((end - paused_at) as i64),
        resumed_timer(paused_timer(t, paused_at), resumed_at) == (TimerStateView {
            end_time: Some((resumed_at + (end - paused_at)) as i64),
            paused_remaining: None,
            pre_pause_state: None,
            ..t
        }),
{
}

/// At most the daily limit of extensions counts for a day, and a quota
/// recorded on another day counts as none.
pub proof fn law_quota_bounds(d: StoreDataView, today: Seq<char>)
    ensures
        quota_used_on(d, today) <= DAILY_EXTEND_LIMIT,
        d.quota_state.date != today ==> quota_used_on(d, today) == 0,
{
}

/// Each granted extension counts exactly one against today's quota, so at
/// most the daily limit are granted per day.
pub proof fn law_extension_counts_one(d: StoreDataView, today: Seq<char>)
    requires
        quota_used_on(d, today) < DAILY_EXTEND_LIMIT,
    ensures
        quota_used_on(after_consume(d, today), today) == quota_used_on(d, today) + 1,
        after_consume(d, today).badges_state.last_extend_date == Some(today),
{
}

/// The streak never exceeds the goal, is zero on a day with an extension,
/// and counts any number of finished tomatoes today as one.
pub proof fn law_streak_bounds(raw: BadgesStateView, today: Seq<char>, quota_used: u32, completed: u32)
    ensures
        streak(raw, today, quota_used, completed) <= STREAK_GOAL,
        quota_used > 0 ==> streak(raw, today, quota_used, completed) == 0,
        completed >= 1 ==> streak(raw, today, quota_used, completed) == streak(raw, today, quota_used, 1),
{
}

/// A badge is awarded at most once per day: right after one is awarded,
/// the same day earns none.
pub proof fn law_one_badge_per_day(d: StoreDataView, today: Seq<char>)
    requires
        milestone_earned(d, today),
        d.badges_state.badges < u32::MAX,
    ensures
        after_milestone(d, today).badges_state.badges == d.badges_state.badges + 1,
        !milestone_earned(after_milestone(d, today), today),
{
    let d1 = with_anchor(d, today);
    let d2 = after_milestone(d, today);
    assert(d2.badges_state.unlocked_dates.last() == today);
    assert(with_anchor(d2, today) == d2);
    assert(d2.badges_state.unlocked_dates.contains(today)) by {
        assert(d2.badges_state.unlocked_dates[d2.badges_state.unlocked_dates.len() - 1] == today);
    }
}

/// Rolling the tasks over is done once per day: a second roll-over on the
/// same day changes nothing.
pub proof fn law_rollover_idempotent(d: StoreDataView, today: Seq<char>)
    ensures
        rolled_over(rolled_over(d, today), today) == rolled_over(d, today),
{
}

/// Archiving a day again adds no task whose id that day already has.
pub proof fn law_archiving_adds_no_known_id(existing: Seq<TaskView>, incoming: Seq<TaskView>)
    ensures
        forall|i: int| existing.len() <= i < archived_with(existing, incoming).len()
            ==> !task_ids(existing).contains(#[trigger] archived_with(existing, incoming)[i].id),
        (forall|j: int| 0 <= j < incoming.len() ==> task_ids(existing).contains(#[trigger] incoming[j].id))
            ==> archived_with(existing, incoming) == existing,
{
    let f = incoming.filter(not_archived(existing));
    broadcast use vstd::seq_lib::group_filter_ensures;
    assert forall|i: int| existing.len() <= i < archived_with(existing, incoming).len()
        implies !task_ids(existing).contains(#[trigger] archived_with(existing, incoming)[i].id) by {
        assert(archived_with(existing, incoming)[i] == f[i - existing.len()]);
        assert(not_archived(existing)(f[i - existing.len()]));
    }
    if forall|j: int| 0 <= j < incoming.len() ==> task_ids(existing).contains(#[trigger] incoming[j].id) {
        if f.len() > 0 {
            assert(f.contains(f[0]));
            incoming.lemma_filter_contains_rev(not_archived(existing), f[0]);
            assert(incoming.contains(f[0]));
            let j = choose|j: int| 0 <= j < incoming.len() && incoming[j] == f[0];
            assert(task_ids(existing).contains(incoming[j].id));
            assert(not_archived(existing)(f[0]));
        }
        assert(archived_with(existing, incoming) =~= existing);
    }
}

/// Statistics keep a year: after a day is counted, no day before the
/// cutoff (366 days before today) is left, and every day from the cutoff
/// on keeps its entry (today's raised by one).
pub proof fn law_stats_keep_a_year(stats: Map<Seq<char>, StatEntry>, today: Seq<char>, c: StatCounter)
    ensures
        retention_cutoff(today) matches Some(cut) ==> forall|k: Seq<char>| #[trigger]
            stats_after_bump(stats, today, c).contains_key(k) ==> text_le(cut, k),
        retention_cutoff(today) matches Some(cut) ==> forall|k: Seq<char>|
            stats.contains_key(k) && k != today && text_le(cut, k) ==> #[trigger]
                stats_after_bump(stats, today, c).contains_key(k)
                && stats_after_bump(stats, today, c)[k] == stats[k],
{
}

/// Before the end time nothing happens: the data stay as they are and no
/// effect is produced.
pub proof fn law_nothing_before_end(d: StoreDataView, now: i64, today: Seq<char>, dur: Durations)
    requires
        !phase_due(d.timer_state, now),
    ensures
        after_phase_end(d, now, today, dur) == d,
        phase_end_effects(d, now, today) == Seq::<EffectView>::empty(),
{
}

/// A restored backup never touches what lies outside the backup: the timer,
/// the quota, the Notion settings, the first-run flag and unknown fields.
pub proof fn law_restore_keeps_out_of_scope(old: StoreDataView, d: BackupData)
    ensures
        restored(old, d).timer_state == old.timer_state,
        restored(old, d).quota_state == old.quota_state,
        restored(old, d).notion_config == old.notion_config,
        restored(old, d).onboarding_done == old.onboarding_done,
        restored(old, d).extra == old.extra,
{
}

/// A backup read back as it was written restores what was exported: a
/// current-version backup that holds the exported keys of a store `src` is
/// accepted, and the restored data has `src`'s exported keys (without the
/// browser-only setting) and keeps everything else as it was.
pub proof fn law_restore_gives_back_the_export(old: StoreDataView, src: StoreDataView, d: BackupData)
    requires
        d.stats matches BackupField::Present(m) && m@ == src.stats,
        d.tasks_today matches BackupField::Present(t) && t@ == src.tasks_today,
        d.tasks_archive matches BackupField::Present(a) && archive_view(a@) == src.tasks_archive,
        d.badges_state matches BackupField::Present(b) && b@ == src.badges_state,
        d.settings matches BackupField::Present(s) && s@ == src.settings,
        match src.last_category {
            Some(c) => d.last_category matches BackupText::Text(t) && t@ == c,
            None => d.last_category is NotText,
        },
        d.notion_export_log matches BackupField::Present(l) && text_map_view(l@) == src.notion_export_log,
    ensures
        import_error(BackupDocument::Object { schema_version: BACKUP_SCHEMA_VERSION, data: Some(d) }) is None,
        restored(old, d) == (StoreDataView {
            settings: (SettingsView { extra: without_browser_only(src.settings.extra), ..src.settings }),
            stats: src.stats,
            tasks_today: src.tasks_today,
            tasks_archive: src.tasks_archive,
            badges_state: src.badges_state,
            last_category: src.last_category,
            notion_export_log: src.notion_export_log,
            ..old
        }),
{
}

/// The menu bar shows no title while idle.
pub proof fn law_idle_has_no_title(now: i64)
    ensures
        tray_text(idle_timer(), now) is None,
{
}

/// Abandoning within the grace period after a focus started costs nothing:
/// the statistics and tasks stay, and the timer goes idle.
pub proof fn law_grace_abandon_is_free(d: StoreDataView, now: i64, today: Seq<char>)
    requires
        d.timer_state.phase == Some("focus"@),
        in_grace(d.timer_state, now),
    ensures
        after_abandon(d, now, today) == (StoreDataView { timer_state: idle_timer(), ..d }),
{
}

/// Which refusal a request for extra time gets: a non-positive length, a
/// timer that is neither in a focus nor in a break, or no extension left
/// today; a request with none of these is granted.
pub proof fn law_extension_refusals(d: StoreDataView, ms: i64, today: Seq<char>)
    ensures
        ms <= 0 ==> overtime_refusal(d, ms, today) == Some("invalid-ms"@),
        ms > 0 && d.timer_state.state != TimerPhase::Breaking && d.timer_state.state
            != TimerPhase::Focusing ==> overtime_refusal(d, ms, today) == Some("wrong-state"@),
        ms > 0 && (d.timer_state.state == TimerPhase::Breaking || d.timer_state.state
            == TimerPhase::Focusing) && DAILY_EXTEND_LIMIT - quota_used_on(d, today) == 0
            ==> overtime_refusal(d, ms, today) == Some("quota-exhausted"@),
        ms > 0 && (d.timer_state.state == TimerPhase::Breaking || d.timer_state.state
            == TimerPhase::Focusing) && DAILY_EXTEND_LIMIT - quota_used_on(d, today) > 0
            ==> overtime_refusal(d, ms, today) is None,
{
}

/// Abandoning: outside a focus nothing changes; a focus always ends idle;
/// within the grace period statistics and tasks stay; after it, today's
/// rotten count is raised (statistics as after the bump) and so is the
/// current task's, in the list as rolled over to today.
pub proof fn law_abandon(d: StoreDataView, now: i64, today: Seq<char>)
    requires
        task_bump_fits(rolled_over(d, today), StatCounter::Rotten),
    ensures
        d.timer_state.phase != Some("focus"@) ==> after_abandon(d, now, today) == d,
        d.timer_state.phase == Some("focus"@) ==> after_abandon(d, now, today).timer_state
            == idle_timer(),
        d.timer_state.phase == Some("focus"@) && in_grace(d.timer_state, now) ==> {
            &&& after_abandon(d, now, today).stats == d.stats
            &&& after_abandon(d, now, today).tasks_today == d.tasks_today
            &&& after_abandon(d, now, today).tasks_archive == d.tasks_archive
        },
        d.timer_state.phase == Some("focus"@) && !in_grace(d.timer_state, now) ==> {
            &&& after_abandon(d, now, today).stats == stats_after_bump(d.stats, today, StatCounter::Rotten)
            &&& (current_task(rolled_over(d, today).tasks_today.tasks) matches Some(i) ==> {
                &&& after_abandon(d, now, today).tasks_today.tasks.len() == rolled_over(d, today).tasks_today.tasks.len()
                &&& after_abandon(d, now, today).tasks_today.tasks[i].rotten
                    == rolled_over(d, today).tasks_today.tasks[i].rotten + 1
            })
        },
{
    let tasks = rolled_over(d, today).tasks_today.tasks;
    lemma_current_task_index(tasks);
}

/// A command to start the white noise while it plays or is planned changes
/// nothing.
pub proof fn law_noise_start_ignored_while_active(p: NoisePlan, delay_ms: u64, now: u64)
    requires
        p.playing || p.pending_at is Some,
    ensures
        plan_after_command(p, AudioCmd::NoiseStart { delay_ms }, now) == p,
        command_action(p, AudioCmd::NoiseStart { delay_ms }) == AudioAction::Nothing,
{
}

/// A start planned at `t0` with a delay is due exactly from `t0 + delay` on;
/// chimes leave the plan alone and a stop cancels it.
pub proof fn law_planned_noise_starts_on_time(p: NoisePlan, delay_ms: u64, t0: u64, t: u64, now: u64)
    requires
        !p.playing,
        p.pending_at is None,
        t0 + delay_ms <= u64::MAX,
    ensures
        noise_due(plan_after_command(p, AudioCmd::NoiseStart { delay_ms }, t0), now) <==> now >= t0 + delay_ms,
        plan_after_command(plan_after_command(p, AudioCmd::NoiseStart { delay_ms }, t0), AudioCmd::Chime, t)
            == plan_after_command(p, AudioCmd::NoiseStart { delay_ms }, t0),
        plan_after_command(plan_after_command(p, AudioCmd::NoiseStart { delay_ms }, t0), AudioCmd::SoftNudge, t)
            == plan_after_command(p, AudioCmd::NoiseStart { delay_ms }, t0),
        !noise_due(
            plan_after_command(plan_after_command(p, AudioCmd::NoiseStart { delay_ms }, t0), AudioCmd::NoiseStop, t),
            now,
        ),
{
}

/// A stop fades out a playing white noise (and only then plays anything),
/// and leaves nothing playing or planned.
pub proof fn law_stop_silences(p: NoisePlan, now: u64)
    ensures
        command_action(p, AudioCmd::NoiseStop) == (if p.playing { AudioAction::FadeOutNoise } else { AudioAction::Nothing }),
        plan_after_command(p, AudioCmd::NoiseStop, now) == (NoisePlan { playing: false, pending_at: None }),
{
}

/// At most one white noise plays or is planned at any moment: every command
/// keeps it so, and so does starting a due noise.
pub proof fn law_one_white_noise(p: NoisePlan, cmd: AudioCmd, now: u64, ok: bool)
    requires
        single_noise(p),
    ensures
        single_noise(plan_after_command(p, cmd, now)),
        noise_due(p, now) ==> single_noise(NoisePlan { playing: ok, ..NoisePlan { pending_at: None, ..p } }),
        !noise_due(p, now) ==> single_noise(p),
{
}

/// The streak starts again after a badge: where the last badge day `u`
/// lies at or after the day before the anchor and the last day with an
/// extension, and today is a later date, the streak with a tomato finished
/// today and no extension used today is the number of days from `u` to
/// today, at most the goal.  On the day after a badge it is one.
pub proof fn law_streak_restarts_after_badge(
    raw: BadgesStateView,
    today: Seq<char>,
    completed: u32,
    badge_day: int,
    day: int,
)
    requires
        raw.unlocked_dates.len() > 0,
        ymd_parse(raw.unlocked_dates.last()) == Some(badge_day),
        ymd_parse(today) == Some(day),
        badge_day < day,
        text_le(
            prior_day_text(
                match raw.anchor_date {
                    Some(a) => a,
                    None => today,
                },
            ),
            raw.unlocked_dates.last(),
        ),
        raw.last_extend_date matches Some(e) ==> text_le(e, raw.unlocked_dates.last()),
        completed >= 1,
    ensures
        streak(raw, today, 0, completed) == (if day - badge_day > STREAK_GOAL {
            STREAK_GOAL as int
        } else {
            day - badge_day
        }),
        day == badge_day + 1 ==> streak(raw, today, 0, completed) == 1,
{
}

/// Long breaks come after every n-th tomato of the day: with long breaks
/// on and the setting n between 2 and 12, the break after the k-th tomato
/// is long exactly when k is a positive multiple of n.
pub proof fn law_long_break_every(k: u32, s: SettingsView)
    requires
        s.long_break_enabled,
        2 <= s.long_break_every <= 12,
    ensures
        takes_long_break(k, s) == (k > 0 && k % s.long_break_every == 0),
        !takes_long_break(0, s),
        takes_long_break(s.long_break_every, s),
{
    let n = s.long_break_every;
    assert(n % n == 0) by (nonlinear_arith)
        requires
            n > 0,
    ;
}

/// The break after a finished focus: with long breaks on every n-th tomato
/// (n from 2 to 12) and of m minutes (15 to 30), outside test mode, the
/// focus that ends is the k-th tomato of the day (one more than the day
/// counted before); the break that follows is a long one of m minutes when
/// k is a multiple of n, else a short one of the set break length.
pub proof fn law_break_after_kth_tomato(d: StoreDataView, now: i64, today: Seq<char>, dur: Durations)
    requires
        phase_due(d.timer_state, now),
        d.timer_state.phase == Some("focus"@),
        d.settings.long_break_enabled,
        2 <= d.settings.long_break_every <= 12,
        15 <= d.settings.long_break_minutes <= 30,
        !dur.test_mode,
        keeps_today(today),
        entry_or_default(d.stats, today).completed < u32::MAX,
    ensures
        today_completed(after_phase_end(d, now, today, dur), today) == entry_or_default(d.stats, today).completed + 1,
        after_phase_end(d, now, today, dur).timer_state.state == TimerPhase::Breaking,
        after_phase_end(d, now, today, dur).timer_state.phase == Some("break"@),
        after_phase_end(d, now, today, dur).timer_state.break_kind == Some(
            if (entry_or_default(d.stats, today).completed + 1) % (d.settings.long_break_every as int) == 0 {
                "long"@
            } else {
                "short"@
            },
        ),
        after_phase_end(d, now, today, dur).timer_state.end_time == Some(
            (now + if (entry_or_default(d.stats, today).completed + 1) % (d.settings.long_break_every as int) == 0 {
                d.settings.long_break_minutes * 60 * 1000
            } else {
                dur.break_ms as int
            }) as i64,
        ),
{
    let d1 = StoreDataView { stats: stats_after_bump(d.stats, today, StatCounter::Completed), ..d };
    lemma_bump_counts_today(d.stats, today, StatCounter::Completed);
    assert(rolled_over(d1, today).stats == d1.stats);
}

/// A reset ends anything but a break without force: a running focus, a
/// paused focus or an idle timer becomes idle, with no phase, no end, no
/// time left, no start and no break kind; with force a break ends too.
pub proof fn law_reset_leaves_idle(t: TimerStateView, force: bool)
    requires
        force || t.state == TimerPhase::Focusing || t.state == TimerPhase::Idle || (t.state
            == TimerPhase::Paused && t.phase != Some("break"@)),
    ensures
        reset_timer(t, force).state == TimerPhase::Idle,
        reset_timer(t, force).phase is None,
        reset_timer(t, force).break_kind is None,
        reset_timer(t, force).end_time is None,
        reset_timer(t, force).paused_remaining is None,
        reset_timer(t, force).pre_pause_state is None,
        reset_timer(t, force).focus_started_at is None,
        reset_timer(t, force).love_monster_until is None,
{
}

/// A granted extension of `ms` at `now` is a fresh focus of exactly that
/// length, whatever ran before (a focus or a break): phase "focus", no
/// break kind, ending at `now + ms`, started at `now`, nothing paused, no
/// celebration; it uses one more extension of today.
pub proof fn law_extension_starts_a_focus(d: StoreDataView, ms: i64, now: i64, today: Seq<char>)
    requires
        overtime_refusal(d, ms, today) is None,
        i64::MIN <= now + ms <= i64::MAX,
    ensures
        after_overtime(d, ms, now, today).timer_state == (TimerStateView {
            state: TimerPhase::Focusing,
            phase: Some("focus"@),
            break_kind: None,
            end_time: Some((now + ms) as i64),
            paused_remaining: None,
            pre_pause_state: None,
            focus_started_at: Some(now),
            love_monster_until: None,
            break_subtitle: None,
        }),
        after_overtime(d, ms, now, today).quota_state.used == quota_used_on(d, today) + 1,
        after_overtime(d, ms, now, today).stats == d.stats,
{
}

/// Extra time ends like any focus: when it runs out, the tomato is counted
/// for the day and a break starts.
pub proof fn law_extension_time_counts_as_a_tomato(
    d: StoreDataView,
    ms: i64,
    now: i64,
    today: Seq<char>,
    dur: Durations,
)
    requires
        overtime_refusal(d, ms, today) is None,
        i64::MIN <= now + ms <= i64::MAX,
        keeps_today(today),
        entry_or_default(d.stats, today).completed < u32::MAX,
    ensures
        phase_due(after_overtime(d, ms, now, today).timer_state, (now + ms) as i64),
        today_completed(after_phase_end(after_overtime(d, ms, now, today), (now + ms) as i64, today, dur), today)
            == entry_or_default(d.stats, today).completed + 1,
        after_phase_end(after_overtime(d, ms, now, today), (now + ms) as i64, today, dur).timer_state.state
            == TimerPhase::Breaking,
{
    let a = after_overtime(d, ms, now, today);
    let d1 = StoreDataView { stats: stats_after_bump(a.stats, today, StatCounter::Completed), ..a };
    lemma_bump_counts_today(a.stats, today, StatCounter::Completed);
    assert(rolled_over(d1, today).stats == d1.stats);
}

/// An abandon after the grace period first moves an earlier day's list to
/// the archive: today's list is then dated today; a list of another day
/// leaves today's list empty and is archived under its own day after what
/// that day already held, each of its tasks unchanged unless its id was
/// archived there already; other days of the archive stay.  Only a task of
/// a list dated today is charged: all its other tasks stay as they were.
pub proof fn law_abandon_rolls_over_first(d: StoreDataView, now: i64, today: Seq<char>)
    requires
        d.timer_state.phase == Some("focus"@),
        !in_grace(d.timer_state, now),
    ensures
        after_abandon(d, now, today).tasks_today.date == today,
        d.tasks_today.date != today ==> after_abandon(d, now, today).tasks_today.tasks == Seq::<TaskView>::empty(),
        d.tasks_today.date != today && d.tasks_today.date.len() > 0 && d.tasks_today.tasks.len() > 0 ==> {
            let old_day = d.tasks_today.date;
            let before = if d.tasks_archive.contains_key(old_day) {
                d.tasks_archive[old_day]
            } else {
                Seq::<TaskView>::empty()
            };
            let after = after_abandon(d, now, today).tasks_archive;
            &&& after.contains_key(old_day)
            &&& after[old_day].len() >= before.len()
            &&& after[old_day].subrange(0, before.len() as int) == before
            &&& forall|i: int|
                0 <= i < d.tasks_today.tasks.len() && !task_ids(before).contains(
                    #[trigger] d.tasks_today.tasks[i].id,
                ) ==> after[old_day].contains(d.tasks_today.tasks[i])
        },
        forall|k: Seq<char>| k != d.tasks_today.date ==> (#[trigger] after_abandon(d, now, today).tasks_archive.contains_key(k)
            == d.tasks_archive.contains_key(k)) && (d.tasks_archive.contains_key(k) ==> after_abandon(d, now, today).tasks_archive[k]
            == d.tasks_archive[k]),
        d.tasks_today.date == today ==> {
            &&& after_abandon(d, now, today).tasks_today.tasks.len() == d.tasks_today.tasks.len()
            &&& forall|j: int|
                0 <= j < d.tasks_today.tasks.len() && current_task(d.tasks_today.tasks) != Some(j)
                    ==> #[trigger] after_abandon(d, now, today).tasks_today.tasks[j] == d.tasks_today.tasks[j]
        },
{
    lemma_current_task_index(d.tasks_today.tasks);
    let old_day = d.tasks_today.date;
    let tasks = d.tasks_today.tasks;
    if d.tasks_today.date != today && old_day.len() > 0 && tasks.len() > 0 {
        let before = if d.tasks_archive.contains_key(old_day) {
            d.tasks_archive[old_day]
        } else {
            Seq::<TaskView>::empty()
        };
        let after = after_abandon(d, now, today).tasks_archive;
        assert(after[old_day] == archived_with(before, tasks));
        assert(after[old_day].subrange(0, before.len() as int) =~= before);
        assert forall|i: int|
            0 <= i < tasks.len() && !task_ids(before).contains(#[trigger] tasks[i].id) implies after[old_day].contains(
            tasks[i],
        ) by {
            tasks.lemma_filter_contains(not_archived(before), i);
            let f = tasks.filter(not_archived(before));
            let j = choose|j: int| 0 <= j < f.len() && f[j] == tasks[i];
            assert(after[old_day][before.len() + j] == tasks[i]);
        }
    }
}

} // verus!
