//! The timer state machine: focus and break phases driven by end times, the
//! daily extension quota, statistics, task bookkeeping, streaks and badges.
//!
//! Every operation works on [`StoreData`] with the current time (epoch
//! milliseconds) and today's date handed in by the caller; side effects
//! (sounds, notifications, the celebration) are returned as [`Effect`]s.

use vstd::prelude::*;
use crate::date::{
    four_digit_day, LAST_FOUR_DIGIT_DAY, MIN_DAY, day_in_range, day_text, days_between_str, days_between_text, parse_date, prior_day_str,
    prior_day_text, sub_days, ymd_parse, ymd_text,
};
use crate::store::{
    idle_timer, opt_text, tasks_view, texts_view, BadgesState, BadgesStateView, QuotaStateView, Settings, SettingsView, StatEntry, StoreData,
    StoreDataView, Task, TaskView, TasksToday, TasksTodayView, TimerPhase, TimerState,
    TimerStateView, DAILY_EXTEND_LIMIT, STREAK_GOAL,
};
use crate::text::{
    decimal_text, lemma_text_lt_asymmetric, push_decimal, push_two_digits, str_eq, str_lt,
    text_le, text_lt, two_digit_text,
};

verus! {

/// Abandoning a focus within this many milliseconds of its start is free.
pub const FOCUS_START_GRACE_MS: i64 = 10000i64;

/// How long the badge celebration shows, in milliseconds.
pub const LOVE_CELEBRATION_MS: i64 = 15000i64;

/// How many days of statistics are kept before today.
pub const STATS_RETENTION_DAYS: u32 = 366u32;

// ---------------------------------------------------------------- durations

/// Phase lengths in milliseconds.
#[derive(Debug, Clone, Copy)]
pub struct Durations {
    pub focus_ms: i64,
    pub break_ms: i64,
    pub last_minute_ms: i64,
    pub test_mode: bool,
}

/// The phase lengths: 25 minutes of focus, 5 of break and a last-minute
/// chime one minute before the end; in test mode 15 s, 30 s and 5 s.
pub fn durations_for(test_mode: bool) -> (r: Durations)
    ensures
        test_mode ==> r.focus_ms == 15000 && r.break_ms == 30000 && r.last_minute_ms == 5000,
        !test_mode ==> r.focus_ms == 25 * 60 * 1000 && r.break_ms == 5 * 60 * 1000
            && r.last_minute_ms == 60 * 1000,
        r.test_mode == test_mode,
{
    if test_mode {
        Durations { focus_ms: 15000, break_ms: 30000, last_minute_ms: 5000, test_mode }
    } else {
        Durations {
            focus_ms: 25 * 60 * 1000,
            break_ms: 5 * 60 * 1000,
            last_minute_ms: 60 * 1000,
            test_mode,
        }
    }
}

// ---------------------------------------------------------------- effects

/// A side effect for the caller to carry out.
#[derive(Debug, PartialEq, Eq)]
pub enum Effect {
    Chime,
    WhiteNoiseStart,
    WhiteNoiseStop,
    /// A notification; `{SUBTITLE}` in the body stands for a subtitle the caller picks.
    Notify { title: String, body: String },
    /// A badge was earned: show the celebration.
    Celebration,
}

/// The model of [`Effect`].
pub enum EffectView {
    Chime,
    WhiteNoiseStart,
    WhiteNoiseStop,
    Notify { title: Seq<char>, body: Seq<char> },
    Celebration,
}

impl View for Effect {
    type V = EffectView;

    open spec fn view(&self) -> EffectView {
        match self {
            Effect::Chime => EffectView::Chime,
            Effect::WhiteNoiseStart => EffectView::WhiteNoiseStart,
            Effect::WhiteNoiseStop => EffectView::WhiteNoiseStop,
            Effect::Notify { title, body } => EffectView::Notify { title: title@, body: body@ },
            Effect::Celebration => EffectView::Celebration,
        }
    }
}

/// The view of a list of effects.
pub open spec fn effects_view(v: Seq<Effect>) -> Seq<EffectView> {
    v.map_values(|e: Effect| e@)
}

fn notify(title: &str, body: &str) -> (r: Effect)
    ensures
        r@ == (EffectView::Notify { title: title@, body: body@ }),
{
    Effect::Notify { title: String::from_str(title), body: String::from_str(body) }
}

// ---------------------------------------------------------------- quota

/// The quota as shown to the user.
#[derive(Debug)]
pub struct QuotaView {
    pub date: String,
    pub used: u32,
    pub limit: u32,
    pub remaining: u32,
}

/// Extensions used today; a quota recorded on another day counts as none,
/// and a count above the limit counts as the limit.
pub open spec fn quota_used_on(d: StoreDataView, today: Seq<char>) -> u32 {
    if d.quota_state.date == today {
        if d.quota_state.used <= DAILY_EXTEND_LIMIT {
            d.quota_state.used
        } else {
            DAILY_EXTEND_LIMIT
        }
    } else {
        0
    }
}

/// Today's quota.
pub fn get_quota(data: &StoreData, today: &str) -> (r: QuotaView)
    ensures
        r.date@ == today@,
        r.used == quota_used_on(data@, today@),
        r.limit == DAILY_EXTEND_LIMIT,
        r.remaining == DAILY_EXTEND_LIMIT - quota_used_on(data@, today@),
{
    let raw = &data.quota_state;
    let used = if str_eq(raw.date.as_str(), today) {
        if raw.used <= DAILY_EXTEND_LIMIT {
            raw.used
        } else {
            DAILY_EXTEND_LIMIT
        }
    } else {
        0
    };
    QuotaView {
        date: String::from_str(today),
        used,
        limit: DAILY_EXTEND_LIMIT,
        remaining: DAILY_EXTEND_LIMIT - used,
    }
}

/// Starts today's quota afresh.
pub fn reset_quota(data: &mut StoreData, today: &str)
    ensures
        final(data)@ == (StoreDataView {
            quota_state: QuotaStateView { date: today@, used: 0 },
            ..old(data)@
        }),
{
    data.quota_state.date = String::from_str(today);
    data.quota_state.used = 0;
}

// ---------------------------------------------------------------- anchor

/// The smallest day of the statistics in text order.
pub open spec fn earliest_day(stats: Map<Seq<char>, StatEntry>) -> Seq<char> {
    choose|k: Seq<char>|
        stats.contains_key(k) && forall|k2: Seq<char>| #[trigger] stats.contains_key(k2) ==> text_le(k, k2)
}

/// The day from which streaks are counted when none is set yet: the
/// earliest day with statistics, or today.
pub open spec fn anchor_seed(stats: Map<Seq<char>, StatEntry>, today: Seq<char>) -> Seq<char> {
    if stats.dom() == Set::<Seq<char>>::empty() {
        today
    } else {
        earliest_day(stats)
    }
}

/// The data with a streak anchor set, where none was.
pub open spec fn with_anchor(d: StoreDataView, today: Seq<char>) -> StoreDataView {
    if d.badges_state.anchor_date is None {
        StoreDataView {
            badges_state: BadgesStateView {
                anchor_date: Some(anchor_seed(d.stats, today)),
                ..d.badges_state
            },
            ..d
        }
    } else {
        d
    }
}

/// Two smallest elements are the same.
proof fn lemma_minimum_unique(stats: Map<Seq<char>, StatEntry>, a: Seq<char>, b: Seq<char>)
    requires
        stats.contains_key(a),
        stats.contains_key(b),
        forall|k2: Seq<char>| #[trigger] stats.contains_key(k2) ==> text_le(a, k2),
        forall|k2: Seq<char>| #[trigger] stats.contains_key(k2) ==> text_le(b, k2),
    ensures
        a == b,
{
    assert(text_le(a, b));
    assert(text_le(b, a));
    if a != b {
        lemma_text_lt_asymmetric(a, b);
    }
}

/// Sets the streak anchor, where none is set, to the earliest day with
/// statistics, or today.
fn ensure_anchor(data: &mut StoreData, today: &str)
    ensures
        final(data)@ == with_anchor(old(data)@, today@),
{
    if data.badges_state.anchor_date.is_none() {
        let earliest = data.stats.min_key();
        let anchor = match earliest {
            Some(k) => {
                proof {
                    let e = earliest_day(data.stats@);
                    lemma_minimum_unique(data.stats@, k@, e);
                }
                k
            },
            None => String::from_str(today),
        };
        data.badges_state.anchor_date = Some(anchor);
    }
}

/// The data after an extension was claimed today: the quota counts one
/// more, and today is marked as a day with an extension.
pub open spec fn after_consume(d: StoreDataView, today: Seq<char>) -> StoreDataView {
    let d1 = with_anchor(d, today);
    StoreDataView {
        quota_state: QuotaStateView { date: today, used: (quota_used_on(d, today) + 1) as u32 },
        badges_state: BadgesStateView { last_extend_date: Some(today), ..d1.badges_state },
        ..d1
    }
}

/// Marks today as a day on which an extension was claimed.
fn mark_extend_used_today(data: &mut StoreData, today: &str)
    ensures
        final(data)@ == (StoreDataView {
            badges_state: BadgesStateView {
                last_extend_date: Some(today@),
                ..with_anchor(old(data)@, today@).badges_state
            },
            ..with_anchor(old(data)@, today@)
        }),
{
    ensure_anchor(data, today);
    data.badges_state.last_extend_date = Some(String::from_str(today));
}

/// Uses one extension of today's quota, where one is left; a used
/// extension also marks today as a day with an extension (which ends the streak).
pub fn consume_quota(data: &mut StoreData, today: &str) -> (r: bool)
    ensures
        r == (quota_used_on(old(data)@, today@) < DAILY_EXTEND_LIMIT),
        final(data)@ == (if r { after_consume(old(data)@, today@) } else { old(data)@ }),
{
    let q = get_quota(data, today);
    if q.remaining == 0 {
        return false;
    }
    data.quota_state.date = String::from_str(today);
    data.quota_state.used = q.used + 1;
    mark_extend_used_today(data, today);
    true
}

// ---------------------------------------------------------------- streak

/// The later of two days in text order.
pub open spec fn text_max(a: Seq<char>, b: Seq<char>) -> Seq<char> {
    if text_lt(a, b) {
        b
    } else {
        a
    }
}

/// The day after which the current streak starts: the latest of the day
/// before the anchor, the last day with an extension, and the last day a
/// badge was awarded.
pub open spec fn streak_base(raw: BadgesStateView, today: Seq<char>) -> Seq<char> {
    let anchor = match raw.anchor_date {
        Some(a) => a,
        None => today,
    };
    let c0 = prior_day_text(anchor);
    let c1 = match raw.last_extend_date {
        Some(e) => text_max(c0, e),
        None => c0,
    };
    if raw.unlocked_dates.len() > 0 {
        text_max(c1, raw.unlocked_dates.last())
    } else {
        c1
    }
}

/// The current streak of clean days, at most the goal: none where an
/// extension was used today; counted up to today once today has a finished
/// tomato, else up to yesterday.
pub open spec fn streak(raw: BadgesStateView, today: Seq<char>, quota_used: u32, today_completed: u32) -> u32 {
    if quota_used > 0 {
        0
    } else {
        let endpoint = if today_completed > 0 {
            today
        } else {
            prior_day_text(today)
        };
        let n = days_between_text(streak_base(raw, today), endpoint);
        if n < 0 {
            0
        } else if n > STREAK_GOAL {
            STREAK_GOAL
        } else {
            n as u32
        }
    }
}

/// The current streak; see [`streak`].
pub fn compute_streak(raw: &BadgesState, today: &str, quota_used: u32, today_completed: u32) -> (r: u32)
    ensures
        r == streak(raw@, today@, quota_used, today_completed),
        r <= STREAK_GOAL,
        streak(raw@, today@, quota_used, 0) <= streak(
            raw@,
            today@,
            quota_used,
            1,
        ) <= streak(raw@, today@, quota_used, 0) + 1,
        // Counted from the anchor day: with no badge and no extension yet,
        // an anchor day `a` and today `t` at or after it, the streak is the
        // days from `a` to `t` (today included once a tomato is finished),
        // at most the goal.
        quota_used == 0 && raw@.unlocked_dates.len() == 0 && raw@.last_extend_date is None
            ==> match raw@.anchor_date {
            Some(a) => match (ymd_parse(a), ymd_parse(today@)) {
                (Some(da), Some(t)) => MIN_DAY < da <= t ==> r == ({
                    let n = if today_completed > 0 { t - da + 1 } else { t - da };
                    if n > STREAK_GOAL { STREAK_GOAL as int } else { n }
                }),
                _ => true,
            },
            None => true,
        },
{
    if quota_used > 0 {
        return 0;
    }
    let anchor = match &raw.anchor_date {
        Some(a) => a.clone(),
        None => String::from_str(today),
    };
    let mut base = prior_day_str(anchor.as_str());
    match &raw.last_extend_date {
        Some(d) => {
            if str_lt(base.as_str(), d.as_str()) {
                base = d.clone();
            }
        },
        None => {},
    }
    let n = raw.unlocked_dates.len();
    if n > 0 {
        let last = &raw.unlocked_dates[n - 1];
        proof {
            assert(texts_view(raw.unlocked_dates@).last() == last@);
        }
        if str_lt(base.as_str(), last.as_str()) {
            base = last.clone();
        }
    }
    let yesterday = prior_day_str(today);
    let endpoint = if today_completed > 0 {
        String::from_str(today)
    } else {
        yesterday
    };
    let days = days_between_str(base.as_str(), endpoint.as_str());
    if days < 0 {
        0
    } else if days > STREAK_GOAL as i64 {
        STREAK_GOAL
    } else {
        days as u32
    }
}

/// Tomatoes completed today.
pub open spec fn today_completed(d: StoreDataView, today: Seq<char>) -> u32 {
    if d.stats.contains_key(today) {
        d.stats[today].completed
    } else {
        0
    }
}

fn get_today_completed(data: &StoreData, today: &str) -> (r: u32)
    ensures
        r == today_completed(data@, today@),
{
    match data.stats.get(today) {
        Some(e) => e.completed,
        None => 0,
    }
}

/// Whether `today` is among the days a badge was awarded.
fn contains_text(v: &Vec<String>, s: &str) -> (r: bool)
    ensures
        r == texts_view(v@).contains(s@),
{
    let mut i: usize = 0;
    while i < v.len()
        invariant
            i <= v@.len(),
            forall|j: int| 0 <= j < i ==> v@[j]@ != s@,
        decreases v@.len() - i,
    {
        if str_eq(v[i].as_str(), s) {
            assert(texts_view(v@)[i as int] == s@);
            return true;
        }
        i = i + 1;
    }
    assert forall|j: int| 0 <= j < texts_view(v@).len() implies texts_view(v@)[j] != s@ by {}
    false
}

/// Whether entering today's break earns a badge: this is today's first
/// tomato, the streak has reached the goal, no extension was used today,
/// and no badge was awarded today yet.
pub open spec fn milestone_earned(d: StoreDataView, today: Seq<char>) -> bool {
    let d1 = with_anchor(d, today);
    let used = quota_used_on(d1, today);
    &&& today_completed(d1, today) == 1
    &&& streak(d1.badges_state, today, used, 1) >= STREAK_GOAL
    &&& used == 0
    &&& !d1.badges_state.unlocked_dates.contains(today)
}

/// The data after the badge check on entering a break.
pub open spec fn after_milestone(d: StoreDataView, today: Seq<char>) -> StoreDataView {
    let d1 = with_anchor(d, today);
    if milestone_earned(d, today) {
        StoreDataView {
            badges_state: BadgesStateView {
                badges: (d1.badges_state.badges + 1) as u32,
                unlocked_dates: d1.badges_state.unlocked_dates.push(today),
                ..d1.badges_state
            },
            ..d1
        }
    } else {
        d1
    }
}

/// The badge count can take one more award where one is earned.
pub open spec fn milestone_fits(d: StoreDataView, today: Seq<char>) -> bool {
    milestone_earned(d, today) ==> d.badges_state.badges < u32::MAX
}

/// A badge count below the maximum is enough for the badge check.
pub proof fn lemma_milestone_fits_below_max(d: StoreDataView, today: Seq<char>)
    requires
        d.badges_state.badges < u32::MAX,
    ensures
        milestone_fits(d, today),
{
}

/// Awards a badge on entering a break where one is earned; see
/// [`milestone_earned`].
pub fn record_break_entry_milestone(data: &mut StoreData, today: &str) -> (r: bool)
    requires
        milestone_fits(old(data)@, today@),
    ensures
        r == milestone_earned(old(data)@, today@),
        final(data)@ == after_milestone(old(data)@, today@),
{
    ensure_anchor(data, today);
    let quota_used = get_quota(data, today).used;
    let today_done = get_today_completed(data, today);
    if today_done != 1 {
        return false;
    }
    let streak = compute_streak(&data.badges_state, today, quota_used, today_done);
    if streak >= STREAK_GOAL && quota_used == 0 && !contains_text(&data.badges_state.unlocked_dates, today) {
        data.badges_state.badges = data.badges_state.badges + 1;
        let ghost before = data.badges_state.unlocked_dates@;
        data.badges_state.unlocked_dates.push(String::from_str(today));
        assert(texts_view(data.badges_state.unlocked_dates@) =~= texts_view(before).push(today@));
        return true;
    }
    false
}

/// Badges and streak as shown to the user.
#[derive(Debug, Clone, Copy)]
pub struct BadgesView {
    pub badges: u32,
    pub current_streak: u32,
    pub goal: u32,
}

/// Badges earned and the current streak.
pub fn get_badges_view(data: &StoreData, today: &str) -> (r: BadgesView)
    ensures
        r.badges == data@.badges_state.badges,
        r.current_streak == streak(
            data@.badges_state,
            today@,
            quota_used_on(data@, today@),
            today_completed(data@, today@),
        ),
        r.goal == STREAK_GOAL,
{
    let quota_used = get_quota(data, today).used;
    let completed = get_today_completed(data, today);
    BadgesView {
        badges: data.badges_state.badges,
        current_streak: compute_streak(&data.badges_state, today, quota_used, completed),
        goal: STREAK_GOAL,
    }
}

// ---------------------------------------------------------------- long breaks

/// Long-break minutes as set, with 0 read as 20, kept within 15 to 30.
pub open spec fn long_break_minutes_of(v: int) -> u32 {
    let v = if v == 0 { 20 } else { v };
    if v < 15 {
        15
    } else if v > 30 {
        30
    } else {
        v as u32
    }
}

/// Tomatoes per long break as set, with 0 read as 4, kept within 2 to 12.
pub open spec fn long_break_every_of(v: int) -> u32 {
    let v = if v == 0 { 4 } else { v };
    if v < 2 {
        2
    } else if v > 12 {
        12
    } else {
        v as u32
    }
}

/// Long-break minutes, with 0 read as 20, kept within 15 to 30.
pub fn clamp_long_break_minutes(v: i64) -> (r: u32)
    ensures
        r == long_break_minutes_of(v as int),
        15 <= r <= 30,
{
    let v = if v == 0 { 20 } else { v };
    if v < 15 {
        15
    } else if v > 30 {
        30
    } else {
        v as u32
    }
}

/// Tomatoes per long break, with 0 read as 4, kept within 2 to 12.
pub fn normalize_long_break_every(v: i64) -> (r: u32)
    ensures
        r == long_break_every_of(v as int),
        2 <= r <= 12,
{
    let v = if v == 0 { 4 } else { v };
    if v < 2 {
        2
    } else if v > 12 {
        12
    } else {
        v as u32
    }
}

/// Whether the break after the `completed_today`-th tomato is a long one.
pub open spec fn takes_long_break(completed_today: u32, s: SettingsView) -> bool {
    &&& s.long_break_enabled
    &&& completed_today > 0
    &&& completed_today % long_break_every_of(s.long_break_every as int) == 0
}

/// Whether the break after the `completed_today`-th tomato is a long one:
/// long breaks are on and the count is a positive multiple of the setting.
pub fn should_take_long_break(completed_today: u32, data: &StoreData) -> (r: bool)
    ensures
        r == takes_long_break(completed_today, data@.settings),
{
    if !data.settings.long_break_enabled {
        return false;
    }
    let every = normalize_long_break_every(data.settings.long_break_every as i64);
    completed_today > 0 && completed_today % every == 0
}

/// The length of a break in milliseconds.
pub open spec fn break_length(long: bool, s: SettingsView, dur: Durations) -> int {
    if !long || dur.test_mode {
        dur.break_ms as int
    } else {
        long_break_minutes_of(s.long_break_minutes as int) * 60 * 1000
    }
}

/// The length of a break of the given kind (`"long"` or another) in milliseconds.
pub fn break_duration_ms(kind: &str, data: &StoreData, dur: &Durations) -> (r: i64)
    ensures
        r == break_length(kind@ == "long"@, data@.settings, *dur),
{
    if !str_eq(kind, "long") || dur.test_mode {
        return dur.break_ms;
    }
    clamp_long_break_minutes(data.settings.long_break_minutes as i64) as i64 * 60 * 1000
}

// ---------------------------------------------------------------- statistics

/// Which daily counter to raise.
pub enum StatCounter {
    Completed,
    Rotten,
}

/// A day's entry with one counter raised.
pub open spec fn bumped(e: StatEntry, c: StatCounter) -> StatEntry {
    match c {
        StatCounter::Completed => StatEntry { completed: (e.completed + 1) as u32, ..e },
        StatCounter::Rotten => StatEntry { rotten: (e.rotten + 1) as u32, ..e },
    }
}

/// A day's entry, or an empty one.
pub open spec fn entry_or_default(stats: Map<Seq<char>, StatEntry>, day: Seq<char>) -> StatEntry {
    if stats.contains_key(day) {
        stats[day]
    } else {
        StatEntry { completed: 0, rotten: 0 }
    }
}

/// The counter can be raised without overflow.
pub open spec fn bump_fits(stats: Map<Seq<char>, StatEntry>, day: Seq<char>, c: StatCounter) -> bool {
    match c {
        StatCounter::Completed => entry_or_default(stats, day).completed < u32::MAX,
        StatCounter::Rotten => entry_or_default(stats, day).rotten < u32::MAX,
    }
}

/// The first day kept when today is `today`: 366 days before, where today
/// is a date and that day is representable.
pub open spec fn retention_cutoff(today: Seq<char>) -> Option<Seq<char>> {
    match ymd_parse(today) {
        Some(day) => if day_in_range(day - STATS_RETENTION_DAYS) {
            Some(ymd_text(day - STATS_RETENTION_DAYS))
        } else {
            None
        },
        None => None,
    }
}

/// The days kept from a cutoff on, in text order.
pub open spec fn kept_days(cutoff: Seq<char>) -> Set<Seq<char>> {
    Set::new(|k: Seq<char>| text_le(cutoff, k))
}

/// Statistics after raising a counter of today, keeping a year of days.
pub open spec fn stats_after_bump(stats: Map<Seq<char>, StatEntry>, today: Seq<char>, c: StatCounter) -> Map<Seq<char>, StatEntry> {
    let m = stats.insert(today, bumped(entry_or_default(stats, today), c));
    match retention_cutoff(today) {
        Some(cut) => m.restrict(kept_days(cut)),
        None => m,
    }
}

/// Whether `s` is the text the calendar writes for a day of years 1 to
/// 9999, as today's date is written.
pub open spec fn calendar_text(s: Seq<char>) -> bool {
    match ymd_parse(s) {
        Some(t) => 1 <= t <= LAST_FOUR_DIGIT_DAY && ymd_text(t) == s,
        None => false,
    }
}

/// Today's entry is not dropped by the retention cut.
pub open spec fn keeps_today(today: Seq<char>) -> bool {
    match retention_cutoff(today) {
        Some(cut) => text_le(cut, today),
        None => true,
    }
}

/// Where today's entry is kept, it is there after the bump, raised by one.
pub proof fn lemma_bump_counts_today(stats: Map<Seq<char>, StatEntry>, today: Seq<char>, c: StatCounter)
    requires
        keeps_today(today),
    ensures
        stats_after_bump(stats, today, c).contains_key(today),
        stats_after_bump(stats, today, c)[today] == bumped(entry_or_default(stats, today), c),
{
}

/// Raises a counter of today's statistics and drops days older than a year.
fn mutate_today_stats(data: &mut StoreData, today: &str, c: StatCounter)
    requires
        bump_fits(old(data)@.stats, today@, c),
    ensures
        final(data)@ == (StoreDataView {
            stats: stats_after_bump(old(data)@.stats, today@, c),
            ..old(data)@
        }),
        calendar_text(today@) ==> keeps_today(today@),
{
    let mut e = match data.stats.get(today) {
        Some(e) => *e,
        None => StatEntry { completed: 0, rotten: 0 },
    };
    match c {
        StatCounter::Completed => {
            e.completed = e.completed + 1;
        },
        StatCounter::Rotten => {
            e.rotten = e.rotten + 1;
        },
    }
    data.stats.upsert(String::from_str(today), e);
    match parse_date(today) {
        Some(day) => match sub_days(day, STATS_RETENTION_DAYS) {
            Some(cut) => {
                let cutoff = day_text(cut);
                proof {
                    if calendar_text(today@) {
                        assert(four_digit_day(day as int));
                        assert(four_digit_day(cut as int));
                        assert(text_lt(cutoff@, ymd_text(day as int)));
                    }
                }
                data.stats.retain_from(cutoff.as_str());
            },
            None => {},
        },
        None => {},
    }
}

// ---------------------------------------------------------------- tasks

/// The ids of a list of tasks.
pub open spec fn task_ids(tasks: Seq<TaskView>) -> Seq<Seq<char>> {
    tasks.map_values(|t: TaskView| t.id)
}

/// The archive of a day after archiving `incoming` into `existing`: tasks
/// whose id is already archived that day are not added again.
pub open spec fn archived_with(existing: Seq<TaskView>, incoming: Seq<TaskView>) -> Seq<TaskView> {
    existing + incoming.filter(not_archived(existing))
}

/// Whether a task's id is not among those of `existing`.
pub open spec fn not_archived(existing: Seq<TaskView>) -> spec_fn(TaskView) -> bool {
    |t: TaskView| !task_ids(existing).contains(t.id)
}

/// The data after moving the tasks of an earlier day to the archive.
pub open spec fn rolled_over(d: StoreDataView, today: Seq<char>) -> StoreDataView {
    if d.tasks_today.date == today {
        d
    } else {
        let old_date = d.tasks_today.date;
        let tasks = d.tasks_today.tasks;
        let archive = if old_date.len() > 0 && tasks.len() > 0 {
            let existing = if d.tasks_archive.contains_key(old_date) {
                d.tasks_archive[old_date]
            } else {
                Seq::empty()
            };
            d.tasks_archive.insert(old_date, archived_with(existing, tasks))
        } else {
            d.tasks_archive
        };
        StoreDataView {
            tasks_today: TasksTodayView { date: today, tasks: Seq::empty() },
            tasks_archive: archive,
            ..d
        }
    }
}

fn collect_ids(tasks: &Vec<Task>) -> (r: Vec<String>)
    ensures
        texts_view(r@) == task_ids(tasks_view(tasks@)),
{
    let mut r: Vec<String> = Vec::new();
    let mut i: usize = 0;
    while i < tasks.len()
        invariant
            i <= tasks@.len(),
            r@.len() == i,
            forall|j: int| 0 <= j < i ==> #[trigger] r@[j]@ == tasks@[j].id@,
        decreases tasks@.len() - i,
    {
        r.push(tasks[i].id.clone());
        i = i + 1;
    }
    assert(texts_view(r@) =~= task_ids(tasks_view(tasks@)));
    r
}

/// When the tasks belong to another day than `today`, moves them to that
/// day's archive (without adding a task whose id that day already has) and
/// starts today's empty list.
pub fn roll_over_tasks_if_needed(data: &mut StoreData, today: &str)
    ensures
        final(data)@ == rolled_over(old(data)@, today@),
{
    if str_eq(data.tasks_today.date.as_str(), today) {
        return;
    }
    let mut old_date = String::new();
    std::mem::swap(&mut old_date, &mut data.tasks_today.date);
    let mut old_tasks: Vec<Task> = Vec::new();
    std::mem::swap(&mut old_tasks, &mut data.tasks_today.tasks);
    let ghost d0 = old(data)@;
    if !old_date.as_str().is_empty() && old_tasks.len() > 0 {
        let ghost arch0 = data.tasks_archive@;
        let old_key = old_date.clone();
        let mut archived = match data.tasks_archive.remove(old_key.as_str()) {
            Some(v) => v,
            None => Vec::new(),
        };
        let ghost existing = tasks_view(archived@);
        assert(existing == (if d0.tasks_archive.contains_key(old_date@) {
            d0.tasks_archive[old_date@]
        } else {
            Seq::<TaskView>::empty()
        }));
        let seen = collect_ids(&archived);
        let ghost incoming = tasks_view(old_tasks@);
        let ghost pred = not_archived(existing);
        let mut i: usize = 0;
        while i < old_tasks.len()
            invariant
                i <= old_tasks@.len(),
                incoming == tasks_view(old_tasks@),
                texts_view(seen@) == task_ids(existing),
                tasks_view(archived@) == existing + incoming.subrange(0, i as int).filter(not_archived(existing)),
            decreases old_tasks@.len() - i,
        {
            let ghost before = archived@;
            let ghost pred = not_archived(existing);
            let t = old_tasks[i].clone();
            assert(incoming.subrange(0, i + 1) == incoming.subrange(0, i as int).push(incoming[i as int]));
            proof {
                incoming.subrange(0, i as int).lemma_filter_push(incoming[i as int], pred);
            }
            let ghost x = incoming[i as int];
            let ghost prefix = incoming.subrange(0, i as int);
            assert(t@ == x);
            let fresh = !contains_text(&seen, t.id.as_str());
            assert(t.id@ == x.id);
            assert(pred(x) == !task_ids(existing).contains(x.id));
            assert(fresh == pred(x));
            if fresh {
                archived.push(t);
                assert(tasks_view(archived@) =~= tasks_view(before).push(x));
                assert(prefix.push(x).filter(pred) == prefix.filter(pred).push(x));
                assert(existing + prefix.filter(pred).push(x) =~= (existing + prefix.filter(pred)).push(x));
            } else {
                assert(prefix.push(x).filter(pred) == prefix.filter(pred));
            }
            i = i + 1;
        }
        assert(incoming.subrange(0, old_tasks@.len() as int) == incoming);
        data.tasks_archive.upsert(old_date, archived);
        proof {
            let k = old_date@;
            assert(crate::store::archive_view(data.tasks_archive@) =~= d0.tasks_archive.insert(
                k,
                archived_with(existing, incoming),
            ));
        }
    }
    data.tasks_today.date = String::from_str(today);
    assert(tasks_view(data.tasks_today.tasks@) =~= Seq::<TaskView>::empty());
}

/// A task that is marked current and not done.
pub open spec fn is_current_task(t: TaskView) -> bool {
    t.is_current && !t.done
}

/// The position of the first current, unfinished task of the day.
pub open spec fn current_task(tasks: Seq<TaskView>) -> Option<int> {
    if exists|i: int| 0 <= i < tasks.len() && is_current_task(#[trigger] tasks[i]) {
        Some(
            choose|i: int|
                0 <= i < tasks.len() && is_current_task(tasks[i]) && forall|j: int|
                    0 <= j < i ==> !is_current_task(#[trigger] tasks[j]),
        )
    } else {
        None
    }
}

/// A task with a counter raised: `used` for a finished tomato, `rotten`
/// for an abandoned one.
pub open spec fn task_bumped(t: TaskView, c: StatCounter) -> TaskView {
    match c {
        StatCounter::Completed => TaskView { used: (t.used + 1) as u32, ..t },
        StatCounter::Rotten => TaskView { rotten: (t.rotten + 1) as u32, ..t },
    }
}

/// The data after raising a counter of the current task, if there is one.
pub open spec fn bump_current_task(d: StoreDataView, c: StatCounter) -> StoreDataView {
    match current_task(d.tasks_today.tasks) {
        Some(i) => StoreDataView {
            tasks_today: TasksTodayView {
                tasks: d.tasks_today.tasks.update(i, task_bumped(d.tasks_today.tasks[i], c)),
                ..d.tasks_today
            },
            ..d
        },
        None => d,
    }
}

/// The current task's counter can be raised without overflow.
pub open spec fn task_bump_fits(d: StoreDataView, c: StatCounter) -> bool {
    match current_task(d.tasks_today.tasks) {
        Some(i) => match c {
            StatCounter::Completed => d.tasks_today.tasks[i].used < u32::MAX,
            StatCounter::Rotten => d.tasks_today.tasks[i].rotten < u32::MAX,
        },
        None => true,
    }
}

/// Where some task is current and not done, there is a first such task.
proof fn lemma_first_current_exists(tasks: Seq<TaskView>, k: int)
    requires
        0 <= k < tasks.len(),
        is_current_task(tasks[k]),
    ensures
        exists|i: int|
            0 <= i < tasks.len() && is_current_task(tasks[i]) && forall|j: int|
                0 <= j < i ==> !is_current_task(#[trigger] tasks[j]),
    decreases k,
{
    if exists|j: int| 0 <= j < k && is_current_task(#[trigger] tasks[j]) {
        let j = choose|j: int| 0 <= j < k && is_current_task(#[trigger] tasks[j]);
        lemma_first_current_exists(tasks, j);
    } else {
        assert(forall|j: int| 0 <= j < k ==> !is_current_task(#[trigger] tasks[j]));
    }
}

/// The current task, where there is one, is the first task that is current
/// and not done; where there is none, no task is.
pub proof fn lemma_current_task_index(tasks: Seq<TaskView>)
    ensures
        match current_task(tasks) {
            Some(i) => 0 <= i < tasks.len() && is_current_task(tasks[i]) && forall|j: int|
                0 <= j < i ==> !is_current_task(#[trigger] tasks[j]),
            None => forall|j: int| 0 <= j < tasks.len() ==> !is_current_task(#[trigger] tasks[j]),
        },
{
    if exists|i: int| 0 <= i < tasks.len() && is_current_task(#[trigger] tasks[i]) {
        let k = choose|i: int| 0 <= i < tasks.len() && is_current_task(#[trigger] tasks[i]);
        lemma_first_current_exists(tasks, k);
    }
}

/// The position of the current task, if any.
fn current_task_index(tasks: &Vec<Task>) -> (r: Option<usize>)
    ensures
        match r {
            Some(i) => i < tasks@.len() && current_task(tasks_view(tasks@)) == Some(i as int),
            None => current_task(tasks_view(tasks@)) is None,
        },
{
    let ghost v = tasks_view(tasks@);
    let mut i: usize = 0;
    while i < tasks.len()
        invariant
            i <= tasks@.len(),
            v == tasks_view(tasks@),
            forall|j: int| 0 <= j < i ==> !is_current_task(#[trigger] v[j]),
        decreases tasks@.len() - i,
    {
        if tasks[i].is_current && !tasks[i].done {
            proof {
                assert(is_current_task(v[i as int]));
                let c = current_task(v);
                assert(c is Some);
                let k = c->0;
                assert(0 <= k < v.len() && is_current_task(v[k]));
                if k < i {
                } else if k > i {
                    assert(!is_current_task(v[i as int]));
                }
            }
            return Some(i);
        }
        i = i + 1;
    }
    None
}

/// Raises a counter of the current task, if there is one.
fn bump_current(data: &mut StoreData, c: StatCounter)
    requires
        task_bump_fits(old(data)@, c),
    ensures
        final(data)@ == bump_current_task(old(data)@, c),
{
    match current_task_index(&data.tasks_today.tasks) {
        Some(i) => {
            let ghost before = data.tasks_today.tasks@;
            let mut t = data.tasks_today.tasks[i].clone();
            match c {
                StatCounter::Completed => {
                    t.used = t.used + 1;
                },
                StatCounter::Rotten => {
                    t.rotten = t.rotten + 1;
                },
            }
            let ghost tv = t@;
            data.tasks_today.tasks.set(i, t);
            assert(tasks_view(data.tasks_today.tasks@) =~= tasks_view(before).update(i as int, tv));
        },
        None => {},
    }
}

// ---------------------------------------------------------------- transitions

/// A focus phase of `len` milliseconds starting at `now`.
pub open spec fn focus_timer(now: i64, len: i64) -> TimerStateView {
    TimerStateView {
        state: TimerPhase::Focusing,
        phase: Some("focus"@),
        break_kind: None,
        end_time: Some((now + len) as i64),
        paused_remaining: None,
        pre_pause_state: None,
        focus_started_at: Some(now),
        love_monster_until: None,
        break_subtitle: None,
    }
}

/// A time plus a length does not overflow.
pub open spec fn fits_i64(x: int) -> bool {
    i64::MIN <= x <= i64::MAX
}

fn focus_state(now: i64, len: i64) -> (r: TimerState)
    requires
        fits_i64(now + len),
    ensures
        r@ == focus_timer(now, len),
{
    TimerState {
        state: TimerPhase::Focusing,
        phase: Some(String::from_str("focus")),
        break_kind: None,
        end_time: Some(now + len),
        paused_remaining: None,
        pre_pause_state: None,
        focus_started_at: Some(now),
        love_monster_until: None,
        break_subtitle: None,
    }
}

/// Starts a focus phase at `now`.
pub fn start_focus(data: &mut StoreData, now: i64, dur: &Durations)
    requires
        fits_i64(now + dur.focus_ms),
    ensures
        final(data)@ == (StoreDataView { timer_state: focus_timer(now, dur.focus_ms), ..old(data)@ }),
{
    data.timer_state = focus_state(now, dur.focus_ms);
}

/// The timer after pausing at `now`: only a focus can be paused; the time
/// left (never negative) is kept.
pub open spec fn paused_timer(t: TimerStateView, now: i64) -> TimerStateView {
    if t.state != TimerPhase::Focusing {
        t
    } else {
        let left = match t.end_time {
            Some(e) => e - now,
            None => 0,
        };
        TimerStateView {
            state: TimerPhase::Paused,
            end_time: None,
            paused_remaining: Some((if left < 0 { 0 } else { left }) as i64),
            pre_pause_state: Some(TimerPhase::Focusing),
            ..t
        }
    }
}

/// Pausing computes the time left without overflow.
pub open spec fn pause_fits(t: TimerStateView, now: i64) -> bool {
    t.state == TimerPhase::Focusing ==> match t.end_time {
        Some(e) => fits_i64(e - now),
        None => true,
    }
}

/// Pauses a running focus; a break cannot be paused.
pub fn pause(data: &mut StoreData, now: i64)
    requires
        pause_fits(old(data)@.timer_state, now),
    ensures
        final(data)@ == (StoreDataView {
            timer_state: paused_timer(old(data)@.timer_state, now),
            ..old(data)@
        }),
{
    if data.timer_state.state != TimerPhase::Focusing {
        return;
    }
    let end = match data.timer_state.end_time {
        Some(e) => e,
        None => now,
    };
    let left = end - now;
    let remaining = if left < 0 { 0 } else { left };
    data.timer_state.pre_pause_state = Some(TimerPhase::Focusing);
    data.timer_state.state = TimerPhase::Paused;
    data.timer_state.end_time = None;
    data.timer_state.paused_remaining = Some(remaining);
}

/// The timer after resuming at `now`: the phase paused in goes on with the
/// time that was left.
pub open spec fn resumed_timer(t: TimerStateView, now: i64) -> TimerStateView {
    if t.state != TimerPhase::Paused {
        t
    } else {
        let left = match t.paused_remaining {
            Some(r) => r,
            None => 0,
        };
        TimerStateView {
            state: match t.pre_pause_state {
                Some(p) => p,
                None => TimerPhase::Focusing,
            },
            end_time: Some((now + left) as i64),
            paused_remaining: None,
            pre_pause_state: None,
            ..t
        }
    }
}

/// Resuming computes the new end time without overflow.
pub open spec fn resume_fits(t: TimerStateView, now: i64) -> bool {
    t.state == TimerPhase::Paused ==> match t.paused_remaining {
        Some(r) => fits_i64(now + r),
        None => true,
    }
}

/// Resumes a paused phase.
pub fn resume(data: &mut StoreData, now: i64)
    requires
        resume_fits(old(data)@.timer_state, now),
    ensures
        final(data)@ == (StoreDataView {
            timer_state: resumed_timer(old(data)@.timer_state, now),
            ..old(data)@
        }),
{
    if data.timer_state.state != TimerPhase::Paused {
        return;
    }
    let remaining = match data.timer_state.paused_remaining {
        Some(r) => r,
        None => 0,
    };
    data.timer_state.state = match data.timer_state.pre_pause_state {
        Some(p) => p,
        None => TimerPhase::Focusing,
    };
    data.timer_state.end_time = Some(now + remaining);
    data.timer_state.paused_remaining = None;
    data.timer_state.pre_pause_state = None;
}

/// Whether the timer is in a break, running or paused.
pub open spec fn in_break(t: TimerStateView) -> bool {
    t.state == TimerPhase::Breaking || (t.state == TimerPhase::Paused && t.phase == Some("break"@))
}

/// The timer after a reset: a break cannot be left early unless `force`.
pub open spec fn reset_timer(t: TimerStateView, force: bool) -> TimerStateView {
    if !force && in_break(t) {
        t
    } else {
        idle_timer()
    }
}

fn phase_is(phase: &Option<String>, name: &str) -> (r: bool)
    ensures
        r == (opt_text(*phase) == Some(name@)),
{
    match phase {
        Some(p) => str_eq(p.as_str(), name),
        None => false,
    }
}

/// Returns the timer to idle; during a break this does nothing unless
/// `force` (there is no free way out of a break).
pub fn reset(data: &mut StoreData, force: bool)
    ensures
        final(data)@ == (StoreDataView {
            timer_state: reset_timer(old(data)@.timer_state, force),
            ..old(data)@
        }),
{
    let in_break = data.timer_state.state == TimerPhase::Breaking || (data.timer_state.state
        == TimerPhase::Paused && phase_is(&data.timer_state.phase, "break"));
    if !force && in_break {
        return;
    }
    data.timer_state = TimerState::default();
}

/// Whether `now` is within the grace period after the focus started.
pub open spec fn in_grace(t: TimerStateView, now: i64) -> bool {
    match t.focus_started_at {
        Some(s) => now - s < FOCUS_START_GRACE_MS,
        None => false,
    }
}

/// The data after abandoning at `now`: only a focus can be abandoned;
/// after the grace period it counts as a rotten tomato, for the day and for
/// the current task.
pub open spec fn after_abandon(d: StoreDataView, now: i64, today: Seq<char>) -> StoreDataView {
    if d.timer_state.phase != Some("focus"@) {
        d
    } else if in_grace(d.timer_state, now) {
        StoreDataView { timer_state: idle_timer(), ..d }
    } else {
        let d1 = StoreDataView { stats: stats_after_bump(d.stats, today, StatCounter::Rotten), ..d };
        let d2 = rolled_over(d1, today);
        let d3 = bump_current_task(d2, StatCounter::Rotten);
        StoreDataView { timer_state: idle_timer(), ..d3 }
    }
}

/// Abandoning does not overflow a counter or the elapsed time.
pub open spec fn abandon_fits(d: StoreDataView, now: i64, today: Seq<char>) -> bool {
    d.timer_state.phase == Some("focus"@) ==> {
        &&& (d.timer_state.focus_started_at matches Some(s) ==> fits_i64(now - s))
        &&& (!in_grace(d.timer_state, now) ==> {
            &&& bump_fits(d.stats, today, StatCounter::Rotten)
            &&& task_bump_fits(rolled_over(d, today), StatCounter::Rotten)
        })
    }
}

/// Plain bounds that are enough for abandoning: the elapsed time, today's
/// rotten count and the current task's rotten count fit.
pub proof fn lemma_abandon_fits_within_bounds(d: StoreDataView, now: i64, today: Seq<char>)
    requires
        d.timer_state.focus_started_at matches Some(s) ==> fits_i64(now - s),
        entry_or_default(d.stats, today).rotten < u32::MAX,
        task_bump_fits(d, StatCounter::Rotten),
    ensures
        abandon_fits(d, now, today),
{
    if d.tasks_today.date != today {
        assert(rolled_over(d, today).tasks_today.tasks =~= Seq::<TaskView>::empty());
        lemma_current_task_index(rolled_over(d, today).tasks_today.tasks);
    }
}

/// Abandons a running focus: free within the grace period, otherwise a
/// rotten tomato for the day and the current task.
pub fn abandon(data: &mut StoreData, now: i64, today: &str)
    requires
        abandon_fits(old(data)@, now, today@),
    ensures
        final(data)@ == after_abandon(old(data)@, now, today@),
        calendar_text(today@) && old(data)@.timer_state.phase == Some("focus"@) && !in_grace(
            old(data)@.timer_state,
            now,
        ) ==> final(data)@.stats.contains_key(today@) && final(data)@.stats[today@] == bumped(
            entry_or_default(old(data)@.stats, today@),
            StatCounter::Rotten,
        ),
{
    if !phase_is(&data.timer_state.phase, "focus") {
        return;
    }
    let in_grace = match data.timer_state.focus_started_at {
        Some(t) => now - t < FOCUS_START_GRACE_MS,
        None => false,
    };
    if !in_grace {
        mutate_today_stats(data, today, StatCounter::Rotten);
        proof {
            if calendar_text(today@) {
                lemma_bump_counts_today(old(data)@.stats, today@, StatCounter::Rotten);
            }
        }
        roll_over_tasks_if_needed(data, today);
        bump_current(data, StatCounter::Rotten);
    }
    data.timer_state = TimerState::default();
}

// ---------------------------------------------------------------- extensions

/// The answer to a request for extra focus time.
#[derive(Debug)]
pub struct OvertimeOutcome {
    pub ok: bool,
    /// Why the request was refused: `"invalid-ms"`, `"wrong-state"` or `"quota-exhausted"`.
    pub reason: Option<String>,
}

/// Why a request for `ms` extra milliseconds is refused, if it is.
pub open spec fn overtime_refusal(d: StoreDataView, ms: i64, today: Seq<char>) -> Option<Seq<char>> {
    if ms <= 0 {
        Some("invalid-ms"@)
    } else if d.timer_state.state != TimerPhase::Breaking && d.timer_state.state != TimerPhase::Focusing {
        Some("wrong-state"@)
    } else if quota_used_on(d, today) >= DAILY_EXTEND_LIMIT {
        Some("quota-exhausted"@)
    } else {
        None
    }
}

/// The data after granting `ms` extra milliseconds at `now`: one extension
/// is used and a focus of that length starts.
pub open spec fn after_overtime(d: StoreDataView, ms: i64, now: i64, today: Seq<char>) -> StoreDataView {
    StoreDataView { timer_state: focus_timer(now, ms), ..after_consume(d, today) }
}

/// Claims `ms` milliseconds of extra focus during a focus or a break, using
/// one extension of today's quota; a refusal changes nothing.
pub fn claim_extra_time(data: &mut StoreData, ms: i64, now: i64, today: &str) -> (r: OvertimeOutcome)
    requires
        overtime_refusal(old(data)@, ms, today@) is None ==> fits_i64(now + ms),
    ensures
        r.ok == (overtime_refusal(old(data)@, ms, today@) is None),
        opt_text(r.reason) == overtime_refusal(old(data)@, ms, today@),
        final(data)@ == (if r.ok {
            after_overtime(old(data)@, ms, now, today@)
        } else {
            old(data)@
        }),
{
    if ms <= 0 {
        return OvertimeOutcome { ok: false, reason: Some(String::from_str("invalid-ms")) };
    }
    let state = data.timer_state.state;
    if state != TimerPhase::Breaking && state != TimerPhase::Focusing {
        return OvertimeOutcome { ok: false, reason: Some(String::from_str("wrong-state")) };
    }
    if !consume_quota(data, today) {
        return OvertimeOutcome { ok: false, reason: Some(String::from_str("quota-exhausted")) };
    }
    data.timer_state = focus_state(now, ms);
    OvertimeOutcome { ok: true, reason: None }
}

// ---------------------------------------------------------------- phase ends

/// A break of `len` milliseconds starting at `now`.
pub open spec fn break_timer(now: i64, len: int, long: bool, awarded: bool) -> TimerStateView {
    TimerStateView {
        state: TimerPhase::Breaking,
        phase: Some("break"@),
        break_kind: Some(if long { "long"@ } else { "short"@ }),
        end_time: Some((now + len) as i64),
        paused_remaining: None,
        pre_pause_state: None,
        focus_started_at: None,
        love_monster_until: if awarded { Some((now + LOVE_CELEBRATION_MS) as i64) } else { None },
        break_subtitle: None,
    }
}

/// Whether the break entered now is a long one.
pub open spec fn break_is_long(d: StoreDataView, today: Seq<char>) -> bool {
    takes_long_break(today_completed(d, today), d.settings)
}

/// The data after entering a break at `now`.
pub open spec fn after_break_entry(d: StoreDataView, now: i64, today: Seq<char>, dur: Durations) -> StoreDataView {
    let long = break_is_long(d, today);
    let d1 = after_milestone(d, today);
    StoreDataView {
        timer_state: break_timer(now, break_length(long, d.settings, dur), long, milestone_earned(d, today)),
        ..d1
    }
}

/// The effects of entering a break: the stop notification, the white noise,
/// and the celebration where a badge was earned.
pub open spec fn break_entry_effects(awarded: bool) -> Seq<EffectView> {
    let base = seq![
        EffectView::Notify { title: "25 分钟到了,该停下来了"@, body: "{SUBTITLE}"@ },
        EffectView::WhiteNoiseStart,
    ];
    if awarded {
        base.push(EffectView::Celebration)
    } else {
        base
    }
}

/// Entering a break does not overflow a counter or a time.
pub open spec fn break_entry_fits(d: StoreDataView, now: i64, today: Seq<char>, dur: Durations) -> bool {
    &&& milestone_fits(d, today)
    &&& fits_i64(now + break_length(break_is_long(d, today), d.settings, dur))
    &&& (milestone_earned(d, today) ==> fits_i64(now + LOVE_CELEBRATION_MS))
}

/// Plain bounds that are enough for entering a break: the badge count is
/// below the maximum, and `now` leaves room for the set break and for the
/// longest long break (30 minutes).
pub proof fn lemma_break_entry_fits_within_bounds(d: StoreDataView, now: i64, today: Seq<char>, dur: Durations)
    requires
        d.badges_state.badges < u32::MAX,
        fits_i64(now + dur.break_ms),
        now <= i64::MAX - 30 * 60 * 1000,
    ensures
        break_entry_fits(d, now, today, dur),
{
}

/// Enters a break at `now`: long after every n-th tomato of the day, with
/// a badge where the streak has reached the goal.
pub fn start_break(data: &mut StoreData, now: i64, today: &str, dur: &Durations) -> (r: Vec<Effect>)
    requires
        break_entry_fits(old(data)@, now, today@, *dur),
    ensures
        final(data)@ == after_break_entry(old(data)@, now, today@, *dur),
        effects_view(r@) == break_entry_effects(milestone_earned(old(data)@, today@)),
{
    let completed_today = get_today_completed(data, today);
    let long = should_take_long_break(completed_today, data);
    let kind = if long { "long" } else { "short" };
    proof {
        reveal_strlit("long");
        reveal_strlit("short");
        assert("short"@.len() != "long"@.len());
        assert((kind@ == "long"@) == long);
    }
    let awarded = record_break_entry_milestone(data, today);
    let duration = break_duration_ms(kind, data, dur);
    let love = if awarded { Some(now + LOVE_CELEBRATION_MS) } else { None };
    data.timer_state = TimerState {
        state: TimerPhase::Breaking,
        phase: Some(String::from_str("break")),
        break_kind: Some(String::from_str(kind)),
        end_time: Some(now + duration),
        paused_remaining: None,
        pre_pause_state: None,
        focus_started_at: None,
        love_monster_until: love,
        break_subtitle: None,
    };
    let mut effects: Vec<Effect> = Vec::new();
    effects.push(notify("25 分钟到了,该停下来了", "{SUBTITLE}"));
    effects.push(Effect::WhiteNoiseStart);
    if awarded {
        effects.push(Effect::Celebration);
    }
    assert(effects_view(effects@) =~= break_entry_effects(awarded));
    effects
}

/// Whether the running phase has reached its end at `now`.
pub open spec fn phase_due(t: TimerStateView, now: i64) -> bool {
    &&& (t.state == TimerPhase::Focusing || t.state == TimerPhase::Breaking)
    &&& t.end_time matches Some(e) && now >= e
}

/// The data after a focus ends at `now`, before the break is entered: one
/// more completed tomato for the day and for the current task.
pub open spec fn after_focus_counted(d: StoreDataView, today: Seq<char>) -> StoreDataView {
    let d1 = StoreDataView { stats: stats_after_bump(d.stats, today, StatCounter::Completed), ..d };
    bump_current_task(rolled_over(d1, today), StatCounter::Completed)
}

/// The data after the running phase ends at `now`.
pub open spec fn after_phase_end(d: StoreDataView, now: i64, today: Seq<char>, dur: Durations) -> StoreDataView {
    if !phase_due(d.timer_state, now) {
        d
    } else if d.timer_state.phase == Some("focus"@) {
        after_break_entry(after_focus_counted(d, today), now, today, dur)
    } else {
        let d1 = with_anchor(d, today);
        if d.settings.auto_start_next_focus {
            StoreDataView { timer_state: focus_timer(now, dur.focus_ms), ..d1 }
        } else {
            StoreDataView { timer_state: idle_timer(), ..d1 }
        }
    }
}

/// The effects of the running phase ending at `now`.
pub open spec fn phase_end_effects(d: StoreDataView, now: i64, today: Seq<char>) -> Seq<EffectView> {
    if !phase_due(d.timer_state, now) {
        Seq::empty()
    } else if d.timer_state.phase == Some("focus"@) {
        seq![EffectView::Chime] + break_entry_effects(milestone_earned(after_focus_counted(d, today), today))
    } else {
        seq![
            EffectView::WhiteNoiseStop,
            EffectView::Chime,
            EffectView::Notify {
                title: "休息好了,回来吧"@,
                body: if d.settings.auto_start_next_focus {
                    "下一个番茄已经开始了"@
                } else {
                    "准备好就开始下一个"@
                },
            },
        ]
    }
}

/// Ending the running phase does not overflow a counter or a time.
pub open spec fn phase_end_fits(d: StoreDataView, now: i64, today: Seq<char>, dur: Durations) -> bool {
    phase_due(d.timer_state, now) ==> if d.timer_state.phase == Some("focus"@) {
        let d1 = StoreDataView { stats: stats_after_bump(d.stats, today, StatCounter::Completed), ..d };
        &&& bump_fits(d.stats, today, StatCounter::Completed)
        &&& task_bump_fits(rolled_over(d1, today), StatCounter::Completed)
        &&& break_entry_fits(after_focus_counted(d, today), now, today, dur)
    } else {
        d.settings.auto_start_next_focus ==> fits_i64(now + dur.focus_ms)
    }
}

/// Plain bounds that are enough for ending a phase: the badge count, today's
/// completed count and the current task's used count are below the
/// maximum, and `now` leaves room for a focus, the set break and the
/// longest long break (30 minutes).
pub proof fn lemma_phase_end_fits_within_bounds(d: StoreDataView, now: i64, today: Seq<char>, dur: Durations)
    requires
        d.badges_state.badges < u32::MAX,
        entry_or_default(d.stats, today).completed < u32::MAX,
        task_bump_fits(d, StatCounter::Completed),
        fits_i64(now + dur.focus_ms),
        fits_i64(now + dur.break_ms),
        now <= i64::MAX - 30 * 60 * 1000,
    ensures
        phase_end_fits(d, now, today, dur),
{
    let d1 = StoreDataView { stats: stats_after_bump(d.stats, today, StatCounter::Completed), ..d };
    if d.tasks_today.date != today {
        assert(rolled_over(d1, today).tasks_today.tasks =~= Seq::<TaskView>::empty());
        lemma_current_task_index(rolled_over(d1, today).tasks_today.tasks);
    }
    let d2 = after_focus_counted(d, today);
    assert(d2.badges_state == d.badges_state);
    lemma_break_entry_fits_within_bounds(d2, now, today, dur);
}

/// Settles a phase whose end time has come: a finished focus is counted
/// and a break begins; a finished break starts the next focus or returns to
/// idle, as set.  Before the end time this does nothing.
pub fn handle_phase_end_if_due(data: &mut StoreData, now: i64, today: &str, dur: &Durations) -> (r: Vec<Effect>)
    requires
        phase_end_fits(old(data)@, now, today@, *dur),
    ensures
        final(data)@ == after_phase_end(old(data)@, now, today@, *dur),
        effects_view(r@) == phase_end_effects(old(data)@, now, today@),
        calendar_text(today@) && phase_due(old(data)@.timer_state, now) && old(data)@.timer_state.phase
            == Some("focus"@) ==> final(data)@.stats.contains_key(today@) && final(data)@.stats[today@]
            == bumped(entry_or_default(old(data)@.stats, today@), StatCounter::Completed),
{
    let due = (data.timer_state.state == TimerPhase::Focusing || data.timer_state.state
        == TimerPhase::Breaking) && match data.timer_state.end_time {
        Some(t) => now >= t,
        None => false,
    };
    if !due {
        let r: Vec<Effect> = Vec::new();
        assert(effects_view(r@) =~= Seq::<EffectView>::empty());
        return r;
    }
    if phase_is(&data.timer_state.phase, "focus") {
        let mut effects: Vec<Effect> = Vec::new();
        effects.push(Effect::Chime);
        mutate_today_stats(data, today, StatCounter::Completed);
        proof {
            if calendar_text(today@) {
                lemma_bump_counts_today(old(data)@.stats, today@, StatCounter::Completed);
            }
        }
        roll_over_tasks_if_needed(data, today);
        bump_current(data, StatCounter::Completed);
        let mut more = start_break(data, now, today, dur);
        effects.append(&mut more);
        assert(effects_view(effects@) =~= phase_end_effects(old(data)@, now, today@));
        return effects;
    }
    let mut effects: Vec<Effect> = Vec::new();
    effects.push(Effect::WhiteNoiseStop);
    effects.push(Effect::Chime);
    ensure_anchor(data, today);
    if data.settings.auto_start_next_focus {
        effects.push(notify("休息好了,回来吧", "下一个番茄已经开始了"));
        start_focus(data, now, dur);
    } else {
        effects.push(notify("休息好了,回来吧", "准备好就开始下一个"));
        reset(data, true);
    }
    assert(effects_view(effects@) =~= phase_end_effects(old(data)@, now, today@));
    effects
}

/// Plain bounds under which a phase end cannot overflow: the badge count,
/// today's completed count and the current task's used count are below the
/// maximum, and `now` leaves room for a focus, the set break and the longest
/// long break (30 minutes).
pub open spec fn phase_end_bounds(d: StoreDataView, now: i64, today: Seq<char>, dur: Durations) -> bool {
    &&& d.badges_state.badges < u32::MAX
    &&& entry_or_default(d.stats, today).completed < u32::MAX
    &&& task_bump_fits(d, StatCounter::Completed)
    &&& fits_i64(now + dur.focus_ms)
    &&& fits_i64(now + dur.break_ms)
    &&& now <= i64::MAX - 30 * 60 * 1000
}

fn fits_sum(a: i64, b: i64) -> (r: bool)
    ensures
        r == fits_i64(a + b),
{
    let s = a as i128 + b as i128;
    i64::MIN as i128 <= s && s <= i64::MAX as i128
}

/// Settles a phase whose end time has come, as [`handle_phase_end_if_due`]
/// does, where [`phase_end_bounds`] hold; where they do not, it changes
/// nothing and gives `None`.
pub fn settle_phase_end(data: &mut StoreData, now: i64, today: &str, dur: &Durations) -> (r: Option<Vec<Effect>>)
    ensures
        r is Some == phase_end_bounds(old(data)@, now, today@, *dur),
        match r {
            Some(e) => final(data)@ == after_phase_end(old(data)@, now, today@, *dur)
                && effects_view(e@) == phase_end_effects(old(data)@, now, today@),
            None => final(data)@ == old(data)@,
        },
{
    let badges_ok = data.badges_state.badges < u32::MAX;
    let completed_ok = match data.stats.get(today) {
        Some(e) => e.completed < u32::MAX,
        None => true,
    };
    let task_ok = match current_task_index(&data.tasks_today.tasks) {
        Some(i) => data.tasks_today.tasks[i].used < u32::MAX,
        None => true,
    };
    let time_ok = fits_sum(now, dur.focus_ms) && fits_sum(now, dur.break_ms) && now <= i64::MAX
        - 30 * 60 * 1000;
    if !(badges_ok && completed_ok && task_ok && time_ok) {
        return None;
    }
    proof {
        lemma_phase_end_fits_within_bounds(old(data)@, now, today@, *dur);
    }
    Some(handle_phase_end_if_due(data, now, today, dur))
}

// ---------------------------------------------------------------- settings

/// Settings as stored: the long-break numbers are brought into range.
pub open spec fn normalized_settings(s: SettingsView) -> SettingsView {
    SettingsView {
        long_break_minutes: long_break_minutes_of(s.long_break_minutes as int),
        long_break_every: long_break_every_of(s.long_break_every as int),
        ..s
    }
}

/// Replaces the settings, bringing the long-break numbers into range.
pub fn update_settings(data: &mut StoreData, settings: Settings)
    ensures
        final(data)@ == (StoreDataView { settings: normalized_settings(settings@), ..old(data)@ }),
{
    let mut s = settings;
    s.long_break_minutes = clamp_long_break_minutes(s.long_break_minutes as i64);
    s.long_break_every = normalize_long_break_every(s.long_break_every as i64);
    data.settings = s;
}

// ---------------------------------------------------------------- snapshot

/// Everything the interface shows, at one moment.
#[derive(Debug)]
pub struct Snapshot {
    pub timer: TimerState,
    pub quota: QuotaView,
    pub settings: Settings,
    pub durations: Durations,
    pub today: String,
    pub today_stats: StatEntry,
    pub badges: BadgesView,
    pub tasks_today: TasksToday,
    pub now: i64,
}

/// The state of the timer and the day as the interface shows it.
pub fn snapshot(data: &StoreData, now: i64, today: &str, dur: &Durations) -> (r: Snapshot)
    ensures
        r.timer@ == data@.timer_state,
        r.quota.date@ == today@,
        r.quota.used == quota_used_on(data@, today@),
        r.quota.limit == DAILY_EXTEND_LIMIT,
        r.quota.remaining == DAILY_EXTEND_LIMIT - quota_used_on(data@, today@),
        r.settings@ == data@.settings,
        r.durations == *dur,
        r.today@ == today@,
        r.today_stats == entry_or_default(data@.stats, today@),
        r.badges.badges == data@.badges_state.badges,
        r.badges.current_streak == streak(
            data@.badges_state,
            today@,
            quota_used_on(data@, today@),
            today_completed(data@, today@),
        ),
        r.badges.goal == STREAK_GOAL,
        r.tasks_today@ == data@.tasks_today,
        r.now == now,
{
    let today_stats = match data.stats.get(today) {
        Some(e) => *e,
        None => StatEntry { completed: 0, rotten: 0 },
    };
    Snapshot {
        timer: data.timer_state.clone(),
        quota: get_quota(data, today),
        settings: data.settings.clone(),
        durations: *dur,
        today: String::from_str(today),
        today_stats,
        badges: get_badges_view(data, today),
        tasks_today: data.tasks_today.clone(),
        now,
    }
}

// ---------------------------------------------------------------- tray title

/// Whole seconds left, rounded up, never negative.
pub open spec fn seconds_left(ms: int) -> int {
    ((if ms < 0 { 0 } else { ms }) + 999) / 1000
}

/// `mm:ss` of the time left, each part at least two digits.
pub open spec fn clock_text(ms: int) -> Seq<char> {
    let t = seconds_left(ms);
    two_digit_text((t / 60) as nat) + ":"@ + two_digit_text((t % 60) as nat)
}

/// `m:ss` of the time left, minutes without padding.
pub open spec fn short_clock_text(ms: int) -> Seq<char> {
    let t = seconds_left(ms);
    decimal_text((t / 60) as nat) + ":"@ + two_digit_text((t % 60) as nat)
}

/// The menu-bar title: `mm:ss` in a focus, `休息 m:ss` in a break,
/// `⏸ mm:ss` while paused, none when idle or without a time.
pub open spec fn tray_text(t: TimerStateView, now: i64) -> Option<Seq<char>> {
    match t.state {
        TimerPhase::Focusing => match t.end_time {
            Some(e) => Some(clock_text(e - now)),
            None => None,
        },
        TimerPhase::Breaking => match t.end_time {
            Some(e) => Some("休息 "@ + short_clock_text(e - now)),
            None => None,
        },
        TimerPhase::Paused => match t.paused_remaining {
            Some(r) => Some("⏸ "@ + clock_text(r as int)),
            None => None,
        },
        TimerPhase::Idle => None,
    }
}

/// The time left can be rounded to seconds without overflow.
pub open spec fn ms_fits(ms: int) -> bool {
    fits_i64(ms) && ms + 999 <= i64::MAX
}

/// The title can be computed without overflow.
pub open spec fn tray_fits(t: TimerStateView, now: i64) -> bool {
    match t.state {
        TimerPhase::Focusing | TimerPhase::Breaking => match t.end_time {
            Some(e) => ms_fits(e - now),
            None => true,
        },
        TimerPhase::Paused => match t.paused_remaining {
            Some(r) => ms_fits(r as int),
            None => true,
        },
        TimerPhase::Idle => true,
    }
}

fn whole_seconds(ms: i64) -> (r: u64)
    requires
        ms_fits(ms as int),
    ensures
        r == seconds_left(ms as int),
{
    let m = if ms < 0 { 0 } else { ms };
    ((m + 999) / 1000) as u64
}

fn push_clock(out: &mut String, ms: i64, pad_minutes: bool)
    requires
        ms_fits(ms as int),
    ensures
        final(out)@ == old(out)@ + (if pad_minutes { clock_text(ms as int) } else { short_clock_text(ms as int) }),
{
    let total = whole_seconds(ms);
    if pad_minutes {
        push_two_digits(out, total / 60);
    } else {
        push_decimal(out, total / 60);
    }
    out.append(":");
    push_two_digits(out, total % 60);
    assert(final(out)@ =~= old(out)@ + (if pad_minutes { clock_text(ms as int) } else { short_clock_text(ms as int) }));
}

/// The menu-bar title for the timer at `now`; see [`tray_text`].
pub fn tray_title(state: &TimerState, now: i64) -> (r: Option<String>)
    requires
        tray_fits(state@, now),
    ensures
        match r {
            Some(s) => tray_text(state@, now) == Some(s@),
            None => tray_text(state@, now) is None,
        },
{
    match state.state {
        TimerPhase::Focusing => match state.end_time {
            Some(e) => {
                let mut s = String::new();
                push_clock(&mut s, e - now, true);
                assert(s@ =~= clock_text(e - now));
                Some(s)
            },
            None => None,
        },
        TimerPhase::Breaking => match state.end_time {
            Some(e) => {
                let mut s = String::from_str("休息 ");
                push_clock(&mut s, e - now, false);
                Some(s)
            },
            None => None,
        },
        TimerPhase::Paused => match state.paused_remaining {
            Some(rem) => {
                let mut s = String::from_str("⏸ ");
                push_clock(&mut s, rem, true);
                Some(s)
            },
            None => None,
        },
        TimerPhase::Idle => None,
    }
}

/// The length of the menu-bar countdown cycle, in seconds.
pub const COUNTDOWN_CYCLE_SECS: u64 = 25 * 60;

/// `mm:ss` of what is left of the current countdown cycle `elapsed`
/// seconds after the shell started: from 25:00 down to 00:01, then again.
pub open spec fn countdown_text(elapsed: nat) -> Seq<char> {
    let remain = COUNTDOWN_CYCLE_SECS - elapsed % (COUNTDOWN_CYCLE_SECS as nat);
    two_digit_text((remain / 60) as nat) + ":"@ + two_digit_text((remain % 60) as nat)
}

/// The title that the menu-bar shell shows while it counts down; see
/// [`countdown_text`].
pub fn countdown_title(elapsed_secs: u64) -> (r: String)
    ensures
        r@ == countdown_text(elapsed_secs as nat),
{
    let remain = COUNTDOWN_CYCLE_SECS - elapsed_secs % COUNTDOWN_CYCLE_SECS;
    let mut s = String::new();
    push_two_digits(&mut s, remain / 60);
    s.append(":");
    push_two_digits(&mut s, remain % 60);
    assert(s@ =~= countdown_text(elapsed_secs as nat));
    s
}

} // verus!
