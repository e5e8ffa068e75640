//! The persisted data of the timer: timer state, daily quota, settings,
//! statistics, tasks, badges, and the mathematical model (view) of each.
//!
//! Values that the library only carries and never reads (fields of a newer
//! version, the export log) are kept as maps from a key to the JSON text of
//! the value.

use vstd::prelude::*;
use crate::date_map::{text_map_view, DateMap};

verus! {

/// How many extensions may be claimed per day.
pub const DAILY_EXTEND_LIMIT: u32 = 3u32;

/// How many clean days in a row earn a badge.
pub const STREAK_GOAL: u32 = 7u32;

/// The version written into exported backups.
pub const BACKUP_SCHEMA_VERSION: u64 = 2u64;

/// The view of an optional text.
pub open spec fn opt_text(o: Option<String>) -> Option<Seq<char>> {
    match o {
        Some(s) => Some(s@),
        None => None,
    }
}

/// The view of a list of texts.
pub open spec fn texts_view(v: Seq<String>) -> Seq<Seq<char>> {
    v.map_values(|s: String| s@)
}

fn clone_opt_string(o: &Option<String>) -> (r: Option<String>)
    ensures
        opt_text(r) == opt_text(*o),
{
    match o {
        Some(s) => Some(s.clone()),
        None => None,
    }
}

/// Copies a list of texts.
pub fn clone_texts(v: &Vec<String>) -> (r: Vec<String>)
    ensures
        texts_view(r@) == texts_view(v@),
{
    let mut r: Vec<String> = Vec::new();
    let mut i: usize = 0;
    while i < v.len()
        invariant
            i <= v@.len(),
            r@.len() == i,
            forall|j: int| 0 <= j < i ==> #[trigger] r@[j]@ == v@[j]@,
        decreases v@.len() - i,
    {
        r.push(v[i].clone());
        i = i + 1;
    }
    assert(texts_view(r@) =~= texts_view(v@));
    r
}

// ---------------------------------------------------------------- timer state

/// What the timer is doing.
#[derive(Debug, Clone, Copy, PartialEq, Eq, Structural)]
pub enum TimerPhase {
    Idle,
    Focusing,
    Breaking,
    Paused,
}

impl Default for TimerPhase {
    fn default() -> (r: Self)
        ensures
            r == TimerPhase::Idle,
    {
        TimerPhase::Idle
    }
}

/// The state of the running timer.  Times are epoch milliseconds.
#[derive(Debug)]
pub struct TimerState {
    pub state: TimerPhase,
    /// `"focus"`, `"break"`, or nothing.
    pub phase: Option<String>,
    /// `"short"`, `"long"`, or nothing.
    pub break_kind: Option<String>,
    /// When the current phase ends.
    pub end_time: Option<i64>,
    /// Milliseconds left when paused.
    pub paused_remaining: Option<i64>,
    /// The state before pausing.
    pub pre_pause_state: Option<TimerPhase>,
    /// When the current focus started; abandoning shortly after is free.
    pub focus_started_at: Option<i64>,
    /// Until when the badge celebration shows.
    pub love_monster_until: Option<i64>,
    /// The subtitle picked for the current break.
    pub break_subtitle: Option<String>,
}

/// The model of [`TimerState`].
pub struct TimerStateView {
    pub state: TimerPhase,
    pub phase: Option<Seq<char>>,
    pub break_kind: Option<Seq<char>>,
    pub end_time: Option<i64>,
    pub paused_remaining: Option<i64>,
    pub pre_pause_state: Option<TimerPhase>,
    pub focus_started_at: Option<i64>,
    pub love_monster_until: Option<i64>,
    pub break_subtitle: Option<Seq<char>>,
}

impl View for TimerState {
    type V = TimerStateView;

    open spec fn view(&self) -> TimerStateView {
        TimerStateView {
            state: self.state,
            phase: opt_text(self.phase),
            break_kind: opt_text(self.break_kind),
            end_time: self.end_time,
            paused_remaining: self.paused_remaining,
            pre_pause_state: self.pre_pause_state,
            focus_started_at: self.focus_started_at,
            love_monster_until: self.love_monster_until,
            break_subtitle: opt_text(self.break_subtitle),
        }
    }
}

/// The idle timer.
pub open spec fn idle_timer() -> TimerStateView {
    TimerStateView {
        state: TimerPhase::Idle,
        phase: None,
        break_kind: None,
        end_time: None,
        paused_remaining: None,
        pre_pause_state: None,
        focus_started_at: None,
        love_monster_until: None,
        break_subtitle: None,
    }
}

impl Default for TimerState {
    fn default() -> (r: Self)
        ensures
            r@ == idle_timer(),
    {
        TimerState {
            state: TimerPhase::Idle,
            phase: None,
            break_kind: None,
            end_time: None,
            paused_remaining: None,
            pre_pause_state: None,
            focus_started_at: None,
            love_monster_until: None,
            break_subtitle: None,
        }
    }
}

impl Clone for TimerState {
    fn clone(&self) -> (r: Self)
        ensures
            r@ == self@,
    {
        TimerState {
            state: self.state,
            phase: clone_opt_string(&self.phase),
            break_kind: clone_opt_string(&self.break_kind),
            end_time: self.end_time,
            paused_remaining: self.paused_remaining,
            pre_pause_state: self.pre_pause_state,
            focus_started_at: self.focus_started_at,
            love_monster_until: self.love_monster_until,
            break_subtitle: clone_opt_string(&self.break_subtitle),
        }
    }
}

// ---------------------------------------------------------------- quota

/// The extension quota of one day; a date other than today counts as a fresh day.
#[derive(Debug)]
pub struct QuotaState {
    pub date: String,
    pub used: u32,
}

/// The model of [`QuotaState`].
pub struct QuotaStateView {
    pub date: Seq<char>,
    pub used: u32,
}

impl View for QuotaState {
    type V = QuotaStateView;

    open spec fn view(&self) -> QuotaStateView {
        QuotaStateView { date: self.date@, used: self.used }
    }
}

impl Default for QuotaState {
    fn default() -> (r: Self)
        ensures
            r@ == (QuotaStateView { date: Seq::<char>::empty(), used: 0 }),
    {
        QuotaState { date: String::new(), used: 0 }
    }
}

// ---------------------------------------------------------------- settings

/// User settings.
#[derive(Debug)]
pub struct Settings {
    pub auto_start_next_focus: bool,
    pub white_noise_enabled: bool,
    pub chime_enabled: bool,
    pub long_break_enabled: bool,
    pub long_break_every: u32,
    pub long_break_minutes: u32,
    /// Chime in the last minute of a phase.
    pub last_minute_enabled: bool,
    /// Global shortcut in accelerator form; empty turns it off.
    pub global_shortcut: String,
    pub theme: String,
    /// Settings this version does not know, kept as they came: key to JSON text.
    pub extra: DateMap<String>,
}

/// The model of [`Settings`].
pub struct SettingsView {
    pub auto_start_next_focus: bool,
    pub white_noise_enabled: bool,
    pub chime_enabled: bool,
    pub long_break_enabled: bool,
    pub long_break_every: u32,
    pub long_break_minutes: u32,
    pub last_minute_enabled: bool,
    pub global_shortcut: Seq<char>,
    pub theme: Seq<char>,
    pub extra: Map<Seq<char>, Seq<char>>,
}

impl View for Settings {
    type V = SettingsView;

    open spec fn view(&self) -> SettingsView {
        SettingsView {
            auto_start_next_focus: self.auto_start_next_focus,
            white_noise_enabled: self.white_noise_enabled,
            chime_enabled: self.chime_enabled,
            long_break_enabled: self.long_break_enabled,
            long_break_every: self.long_break_every,
            long_break_minutes: self.long_break_minutes,
            last_minute_enabled: self.last_minute_enabled,
            global_shortcut: self.global_shortcut@,
            theme: self.theme@,
            extra: text_map_view(self.extra@),
        }
    }
}

/// The settings of a fresh installation.
pub open spec fn default_settings() -> SettingsView {
    SettingsView {
        auto_start_next_focus: true,
        white_noise_enabled: true,
        chime_enabled: true,
        long_break_enabled: true,
        long_break_every: 4,
        long_break_minutes: 20,
        last_minute_enabled: true,
        global_shortcut: "Ctrl+Alt+P"@,
        theme: "monster"@,
        extra: Map::empty(),
    }
}

impl Default for Settings {
    fn default() -> (r: Self)
        ensures
            r@ == default_settings(),
    {
        let r = Settings {
            auto_start_next_focus: true,
            white_noise_enabled: true,
            chime_enabled: true,
            long_break_enabled: true,
            long_break_every: 4,
            long_break_minutes: 20,
            last_minute_enabled: true,
            global_shortcut: String::from_str("Ctrl+Alt+P"),
            theme: String::from_str("monster"),
            extra: DateMap::new(),
        };
        assert(text_map_view(r.extra@) =~= Map::empty());
        r
    }
}

impl Clone for Settings {
    fn clone(&self) -> (r: Self)
        ensures
            r@ == self@,
    {
        Settings {
            auto_start_next_focus: self.auto_start_next_focus,
            white_noise_enabled: self.white_noise_enabled,
            chime_enabled: self.chime_enabled,
            long_break_enabled: self.long_break_enabled,
            long_break_every: self.long_break_every,
            long_break_minutes: self.long_break_minutes,
            last_minute_enabled: self.last_minute_enabled,
            global_shortcut: self.global_shortcut.clone(),
            theme: self.theme.clone(),
            extra: self.extra.clone_texts(),
        }
    }
}

// ---------------------------------------------------------------- statistics

/// Tomatoes completed and abandoned on one day.
#[derive(Debug, Clone, Copy, PartialEq, Eq, Structural)]
pub struct StatEntry {
    pub completed: u32,
    pub rotten: u32,
}

impl Default for StatEntry {
    fn default() -> (r: Self)
        ensures
            r == (StatEntry { completed: 0, rotten: 0 }),
    {
        StatEntry { completed: 0, rotten: 0 }
    }
}

// ---------------------------------------------------------------- tasks

/// A task of the day.
#[derive(Debug)]
pub struct Task {
    /// The JSON text of the task's id (a number or a string).
    pub id: String,
    pub title: String,
    pub planned: u32,
    pub used: u32,
    pub rotten: u32,
    pub done: bool,
    pub is_current: bool,
    pub category: Option<String>,
    /// A manual done / not-done override.
    pub done_override: Option<bool>,
    /// Fields this version does not know: key to JSON text.
    pub extra: DateMap<String>,
}

/// The model of [`Task`].
pub struct TaskView {
    pub id: Seq<char>,
    pub title: Seq<char>,
    pub planned: u32,
    pub used: u32,
    pub rotten: u32,
    pub done: bool,
    pub is_current: bool,
    pub category: Option<Seq<char>>,
    pub done_override: Option<bool>,
    pub extra: Map<Seq<char>, Seq<char>>,
}

impl View for Task {
    type V = TaskView;

    open spec fn view(&self) -> TaskView {
        TaskView {
            id: self.id@,
            title: self.title@,
            planned: self.planned,
            used: self.used,
            rotten: self.rotten,
            done: self.done,
            is_current: self.is_current,
            category: opt_text(self.category),
            done_override: self.done_override,
            extra: text_map_view(self.extra@),
        }
    }
}

impl Clone for Task {
    fn clone(&self) -> (r: Self)
        ensures
            r@ == self@,
    {
        Task {
            id: self.id.clone(),
            title: self.title.clone(),
            planned: self.planned,
            used: self.used,
            rotten: self.rotten,
            done: self.done,
            is_current: self.is_current,
            category: clone_opt_string(&self.category),
            done_override: self.done_override,
            extra: self.extra.clone_texts(),
        }
    }
}

impl Default for Task {
    fn default() -> (r: Self)
        ensures
            r@ == (TaskView {
                id: Seq::empty(),
                title: Seq::empty(),
                planned: 0,
                used: 0,
                rotten: 0,
                done: false,
                is_current: false,
                category: None,
                done_override: None,
                extra: Map::empty(),
            }),
    {
        let r = Task {
            id: String::new(),
            title: String::new(),
            planned: 0,
            used: 0,
            rotten: 0,
            done: false,
            is_current: false,
            category: None,
            done_override: None,
            extra: DateMap::new(),
        };
        assert(text_map_view(r.extra@) =~= Map::empty());
        r
    }
}

/// The view of a list of tasks.
pub open spec fn tasks_view(v: Seq<Task>) -> Seq<TaskView> {
    v.map_values(|t: Task| t@)
}

/// Copies a list of tasks.
pub fn clone_tasks(v: &Vec<Task>) -> (r: Vec<Task>)
    ensures
        tasks_view(r@) == tasks_view(v@),
{
    let mut r: Vec<Task> = Vec::new();
    let mut i: usize = 0;
    while i < v.len()
        invariant
            i <= v@.len(),
            r@.len() == i,
            forall|j: int| 0 <= j < i ==> #[trigger] r@[j]@ == v@[j]@,
        decreases v@.len() - i,
    {
        r.push(v[i].clone());
        i = i + 1;
    }
    assert(tasks_view(r@) =~= tasks_view(v@));
    r
}

/// Today's task list.
#[derive(Debug)]
pub struct TasksToday {
    pub date: String,
    pub tasks: Vec<Task>,
}

/// The model of [`TasksToday`].
pub struct TasksTodayView {
    pub date: Seq<char>,
    pub tasks: Seq<TaskView>,
}

impl View for TasksToday {
    type V = TasksTodayView;

    open spec fn view(&self) -> TasksTodayView {
        TasksTodayView { date: self.date@, tasks: tasks_view(self.tasks@) }
    }
}

impl Default for TasksToday {
    fn default() -> (r: Self)
        ensures
            r@ == (TasksTodayView { date: Seq::empty(), tasks: Seq::empty() }),
    {
        let r = TasksToday { date: String::new(), tasks: Vec::new() };
        assert(tasks_view(r.tasks@) =~= Seq::empty());
        r
    }
}

impl Clone for TasksToday {
    fn clone(&self) -> (r: Self)
        ensures
            r@ == self@,
    {
        TasksToday { date: self.date.clone(), tasks: clone_tasks(&self.tasks) }
    }
}

// ---------------------------------------------------------------- badges

/// Streak and badge bookkeeping.
#[derive(Debug)]
pub struct BadgesState {
    pub badges: u32,
    /// The days on which a badge was awarded, in order.
    pub unlocked_dates: Vec<String>,
    /// The last day on which an extension was claimed.
    pub last_extend_date: Option<String>,
    /// The day from which streaks are counted.
    pub anchor_date: Option<String>,
}

/// The model of [`BadgesState`].
pub struct BadgesStateView {
    pub badges: u32,
    pub unlocked_dates: Seq<Seq<char>>,
    pub last_extend_date: Option<Seq<char>>,
    pub anchor_date: Option<Seq<char>>,
}

impl View for BadgesState {
    type V = BadgesStateView;

    open spec fn view(&self) -> BadgesStateView {
        BadgesStateView {
            badges: self.badges,
            unlocked_dates: texts_view(self.unlocked_dates@),
            last_extend_date: opt_text(self.last_extend_date),
            anchor_date: opt_text(self.anchor_date),
        }
    }
}

impl Default for BadgesState {
    fn default() -> (r: Self)
        ensures
            r@ == (BadgesStateView {
                badges: 0,
                unlocked_dates: Seq::empty(),
                last_extend_date: None,
                anchor_date: None,
            }),
    {
        let r = BadgesState {
            badges: 0,
            unlocked_dates: Vec::new(),
            last_extend_date: None,
            anchor_date: None,
        };
        assert(texts_view(r.unlocked_dates@) =~= Seq::empty());
        r
    }
}

// ---------------------------------------------------------------- notion

/// Where the daily export goes; the token stays on this machine.
#[derive(Debug)]
pub struct NotionConfig {
    pub token: String,
    pub task_db_id: String,
    pub day_db_id: String,
}

/// The model of [`NotionConfig`].
pub struct NotionConfigView {
    pub token: Seq<char>,
    pub task_db_id: Seq<char>,
    pub day_db_id: Seq<char>,
}

impl View for NotionConfig {
    type V = NotionConfigView;

    open spec fn view(&self) -> NotionConfigView {
        NotionConfigView {
            token: self.token@,
            task_db_id: self.task_db_id@,
            day_db_id: self.day_db_id@,
        }
    }
}

impl Default for NotionConfig {
    fn default() -> (r: Self)
        ensures
            r@ == (NotionConfigView {
                token: Seq::empty(),
                task_db_id: Seq::empty(),
                day_db_id: Seq::empty(),
            }),
    {
        NotionConfig { token: String::new(), task_db_id: String::new(), day_db_id: String::new() }
    }
}

// ---------------------------------------------------------------- the store

/// Everything the timer keeps.
#[derive(Debug)]
pub struct StoreData {
    pub timer_state: TimerState,
    pub quota_state: QuotaState,
    pub settings: Settings,
    /// Statistics by day.
    pub stats: DateMap<StatEntry>,
    pub tasks_today: TasksToday,
    /// Tasks of past days, by day.
    pub tasks_archive: DateMap<Vec<Task>>,
    pub badges_state: BadgesState,
    pub last_category: Option<String>,
    /// The export log: day to the JSON text of its record.
    pub notion_export_log: DateMap<String>,
    pub notion_config: NotionConfig,
    /// The first-run introduction has been shown.
    pub onboarding_done: bool,
    /// Top-level fields this version does not know: key to JSON text.
    pub extra: DateMap<String>,
}

/// The model of [`StoreData`].
pub struct StoreDataView {
    pub timer_state: TimerStateView,
    pub quota_state: QuotaStateView,
    pub settings: SettingsView,
    pub stats: Map<Seq<char>, StatEntry>,
    pub tasks_today: TasksTodayView,
    pub tasks_archive: Map<Seq<char>, Seq<TaskView>>,
    pub badges_state: BadgesStateView,
    pub last_category: Option<Seq<char>>,
    pub notion_export_log: Map<Seq<char>, Seq<char>>,
    pub notion_config: NotionConfigView,
    pub onboarding_done: bool,
    pub extra: Map<Seq<char>, Seq<char>>,
}

/// The view of the archive: each day's tasks by their model.
pub open spec fn archive_view(m: Map<Seq<char>, Vec<Task>>) -> Map<Seq<char>, Seq<TaskView>> {
    m.map_values(|v: Vec<Task>| tasks_view(v@))
}

impl View for StoreData {
    type V = StoreDataView;

    open spec fn view(&self) -> StoreDataView {
        StoreDataView {
            timer_state: self.timer_state@,
            quota_state: self.quota_state@,
            settings: self.settings@,
            stats: self.stats@,
            tasks_today: self.tasks_today@,
            tasks_archive: archive_view(self.tasks_archive@),
            badges_state: self.badges_state@,
            last_category: opt_text(self.last_category),
            notion_export_log: text_map_view(self.notion_export_log@),
            notion_config: self.notion_config@,
            onboarding_done: self.onboarding_done,
            extra: text_map_view(self.extra@),
        }
    }
}

/// The store of a fresh installation.
pub open spec fn default_store() -> StoreDataView {
    StoreDataView {
        timer_state: idle_timer(),
        quota_state: QuotaStateView { date: Seq::empty(), used: 0 },
        settings: default_settings(),
        stats: Map::empty(),
        tasks_today: TasksTodayView { date: Seq::empty(), tasks: Seq::empty() },
        tasks_archive: Map::empty(),
        badges_state: BadgesStateView {
            badges: 0,
            unlocked_dates: Seq::empty(),
            last_extend_date: None,
            anchor_date: None,
        },
        last_category: None,
        notion_export_log: Map::empty(),
        notion_config: NotionConfigView {
            token: Seq::empty(),
            task_db_id: Seq::empty(),
            day_db_id: Seq::empty(),
        },
        onboarding_done: false,
        extra: Map::empty(),
    }
}

impl Default for StoreData {
    fn default() -> (r: Self)
        ensures
            r@ == default_store(),
    {
        let r = StoreData {
            timer_state: TimerState::default(),
            quota_state: QuotaState::default(),
            settings: Settings::default(),
            stats: DateMap::new(),
            tasks_today: TasksToday::default(),
            tasks_archive: DateMap::new(),
            badges_state: BadgesState::default(),
            last_category: None,
            notion_export_log: DateMap::new(),
            notion_config: NotionConfig::default(),
            onboarding_done: false,
            extra: DateMap::new(),
        };
        assert(text_map_view(r.extra@) =~= Map::empty());
        assert(text_map_view(r.notion_export_log@) =~= Map::empty());
        assert(archive_view(r.tasks_archive@) =~= Map::empty());
        r
    }
}

/// The result of restoring a backup, as the interface reports it.
#[derive(Debug)]
pub struct ImportOutcome {
    pub ok: bool,
    pub error: Option<String>,
    /// Days of statistics after the restore.
    pub days: u32,
}

} // verus!
