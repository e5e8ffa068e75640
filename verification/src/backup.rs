//! Restoring a backup.
//!
//! A backup file is a JSON object `{schemaVersion, data: {...}}`; versions 1
//! and 2 are read.  The caller reads the JSON and each field of `data` into
//! a [`BackupDocument`]; this module decides, key by key, whether the backup
//! can be restored, and restores it all or not at all.  Keys outside the
//! backup (timer, quota, Notion settings) are never touched.

use vstd::prelude::*;
use crate::date_map::{text_map_view, DateMap};
use crate::store::{
    default_settings, opt_text, BadgesState, BadgesStateView, Settings, SettingsView,
    StatEntry, StoreData, StoreDataView, Task, TasksToday, TasksTodayView, archive_view,
    BACKUP_SCHEMA_VERSION,
};
use crate::text::{decimal_text, push_decimal};

verus! {

/// A key of a backup's `data` object as read by the caller.
pub enum BackupField<T> {
    /// The key is missing or `null`.
    Absent,
    /// The value could not be read; the reader's message.
    Invalid(String),
    /// The value.
    Present(T),
}

/// The last-category key as read by the caller.
pub enum BackupText {
    /// The key is missing.
    Absent,
    /// The key is there but holds no text.
    NotText,
    Text(String),
}

/// The `data` object of a backup.
pub struct BackupData {
    pub stats: BackupField<DateMap<StatEntry>>,
    pub tasks_today: BackupField<TasksToday>,
    pub tasks_archive: BackupField<DateMap<Vec<Task>>>,
    pub badges_state: BackupField<BadgesState>,
    pub settings: BackupField<Settings>,
    /// `lastCategory` (written by version 2).
    pub last_category: BackupText,
    /// `lastTaskCategory` (written by version 1).
    pub last_task_category: BackupText,
    pub notion_export_log: BackupField<DateMap<String>>,
}

/// A backup file as read by the caller.
pub enum BackupDocument {
    /// The text is not JSON.
    NotJson,
    /// The JSON is not an object.
    NotObject,
    Object {
        /// `schemaVersion` as an unsigned number, 0 where missing or not one.
        schema_version: u64,
        /// `data`, where it is an object.
        data: Option<BackupData>,
    },
}

/// A field of the backup named in an error.
#[derive(Debug, Clone, Copy, PartialEq, Eq, Structural)]
pub enum BackupKey {
    Stats,
    TasksToday,
    TasksArchive,
    BadgesState,
    Settings,
    NotionExportLog,
}

/// Why a backup was not restored.
#[derive(Debug)]
pub enum ImportError {
    NotJson,
    NotObject,
    UnsupportedVersion(u64),
    MissingData,
    InvalidField { field: BackupKey, detail: String },
    NothingToRestore,
}

/// The model of [`ImportError`].
pub enum ImportErrorView {
    NotJson,
    NotObject,
    UnsupportedVersion(u64),
    MissingData,
    InvalidField { field: BackupKey, detail: Seq<char> },
    NothingToRestore,
}

impl View for ImportError {
    type V = ImportErrorView;

    open spec fn view(&self) -> ImportErrorView {
        match self {
            ImportError::NotJson => ImportErrorView::NotJson,
            ImportError::NotObject => ImportErrorView::NotObject,
            ImportError::UnsupportedVersion(v) => ImportErrorView::UnsupportedVersion(*v),
            ImportError::MissingData => ImportErrorView::MissingData,
            ImportError::InvalidField { field, detail } => ImportErrorView::InvalidField {
                field: *field,
                detail: detail@,
            },
            ImportError::NothingToRestore => ImportErrorView::NothingToRestore,
        }
    }
}

/// The JSON name of a backup field.
pub open spec fn key_name(k: BackupKey) -> Seq<char> {
    match k {
        BackupKey::Stats => "stats"@,
        BackupKey::TasksToday => "tasksToday"@,
        BackupKey::TasksArchive => "tasksArchive"@,
        BackupKey::BadgesState => "badgesState"@,
        BackupKey::Settings => "settings"@,
        BackupKey::NotionExportLog => "notionExportLog"@,
    }
}

/// The message shown for an error.
pub open spec fn error_text(e: ImportErrorView) -> Seq<char> {
    match e {
        ImportErrorView::NotJson => "备份文件不是有效的 JSON"@,
        ImportErrorView::NotObject => "备份文件不是有效的 JSON 对象"@,
        ImportErrorView::UnsupportedVersion(v) => "不支持的备份版本:"@ + decimal_text(v as nat),
        ImportErrorView::MissingData => "备份文件缺少 data 字段"@,
        ImportErrorView::InvalidField { field, detail } => key_name(field) + " 字段格式无效("@
            + detail + ")"@,
        ImportErrorView::NothingToRestore => "备份文件里没有可恢复的数据"@,
    }
}

fn key_str(k: BackupKey) -> (r: &'static str)
    ensures
        r@ == key_name(k),
{
    match k {
        BackupKey::Stats => "stats",
        BackupKey::TasksToday => "tasksToday",
        BackupKey::TasksArchive => "tasksArchive",
        BackupKey::BadgesState => "badgesState",
        BackupKey::Settings => "settings",
        BackupKey::NotionExportLog => "notionExportLog",
    }
}

impl ImportError {
    /// The message shown to the user.
    pub fn message(&self) -> (r: String)
        ensures
            r@ == error_text(self@),
    {
        match self {
            ImportError::NotJson => String::from_str("备份文件不是有效的 JSON"),
            ImportError::NotObject => String::from_str("备份文件不是有效的 JSON 对象"),
            ImportError::UnsupportedVersion(v) => {
                let mut s = String::from_str("不支持的备份版本:");
                push_decimal(&mut s, *v);
                s
            },
            ImportError::MissingData => String::from_str("备份文件缺少 data 字段"),
            ImportError::InvalidField { field, detail } => {
                let mut s = String::from_str(key_str(*field));
                s.append(" 字段格式无效(");
                s.append(detail.as_str());
                s.append(")");
                s
            },
            ImportError::NothingToRestore => String::from_str("备份文件里没有可恢复的数据"),
        }
    }
}

/// The error of a field that could not be read.
pub open spec fn field_error<T>(f: BackupField<T>, k: BackupKey) -> Option<ImportErrorView> {
    match f {
        BackupField::Invalid(m) => Some(ImportErrorView::InvalidField { field: k, detail: m@ }),
        _ => None,
    }
}

/// The last category a backup restores: `lastCategory` where that key is
/// there, else `lastTaskCategory`; a key without text gives none.
pub open spec fn restored_category(d: BackupData) -> Option<Seq<char>> {
    match d.last_category {
        BackupText::Text(s) => Some(s@),
        BackupText::NotText => None,
        BackupText::Absent => match d.last_task_category {
            BackupText::Text(s) => Some(s@),
            _ => None,
        },
    }
}

/// Whether the backup holds anything to restore.
pub open spec fn restores_something(d: BackupData) -> bool {
    ||| d.stats is Present
    ||| d.tasks_today is Present
    ||| d.tasks_archive is Present
    ||| d.badges_state is Present
    ||| d.settings is Present
    ||| restored_category(d) is Some
    ||| d.notion_export_log is Present
}

/// Why a backup cannot be restored, checked in this order: not JSON, not
/// an object, another version than 1 or 2, no `data` object, a field that
/// cannot be read (in the order stats, tasks of the day, archive, badges,
/// settings, export log), nothing to restore.
pub open spec fn import_error(doc: BackupDocument) -> Option<ImportErrorView> {
    match doc {
        BackupDocument::NotJson => Some(ImportErrorView::NotJson),
        BackupDocument::NotObject => Some(ImportErrorView::NotObject),
        BackupDocument::Object { schema_version, data } => {
            if schema_version != 1 && schema_version != BACKUP_SCHEMA_VERSION {
                Some(ImportErrorView::UnsupportedVersion(schema_version))
            } else {
                match data {
                    None => Some(ImportErrorView::MissingData),
                    Some(d) => {
                        if field_error(d.stats, BackupKey::Stats) is Some {
                            field_error(d.stats, BackupKey::Stats)
                        } else if field_error(d.tasks_today, BackupKey::TasksToday) is Some {
                            field_error(d.tasks_today, BackupKey::TasksToday)
                        } else if field_error(d.tasks_archive, BackupKey::TasksArchive) is Some {
                            field_error(d.tasks_archive, BackupKey::TasksArchive)
                        } else if field_error(d.badges_state, BackupKey::BadgesState) is Some {
                            field_error(d.badges_state, BackupKey::BadgesState)
                        } else if field_error(d.settings, BackupKey::Settings) is Some {
                            field_error(d.settings, BackupKey::Settings)
                        } else if field_error(d.notion_export_log, BackupKey::NotionExportLog) is Some {
                            field_error(d.notion_export_log, BackupKey::NotionExportLog)
                        } else if !restores_something(d) {
                            Some(ImportErrorView::NothingToRestore)
                        } else {
                            None
                        }
                    },
                }
            }
        },
    }
}

/// Settings fields of other versions, without the one that only the
/// browser version had (`lockscreenBg`).
pub open spec fn without_browser_only(extra: Map<Seq<char>, Seq<char>>) -> Map<Seq<char>, Seq<char>> {
    extra.remove("lockscreenBg"@)
}

/// The data after restoring the backup's `data` object: each key that is
/// there replaces the stored one, each key that is not resets it.
pub open spec fn restored(old: StoreDataView, d: BackupData) -> StoreDataView {
    StoreDataView {
        stats: match d.stats {
            BackupField::Present(m) => m@,
            _ => Map::empty(),
        },
        tasks_today: match d.tasks_today {
            BackupField::Present(t) => t@,
            _ => TasksTodayView { date: Seq::empty(), tasks: Seq::empty() },
        },
        tasks_archive: match d.tasks_archive {
            BackupField::Present(m) => archive_view(m@),
            _ => Map::empty(),
        },
        badges_state: match d.badges_state {
            BackupField::Present(b) => b@,
            _ => BadgesStateView {
                badges: 0,
                unlocked_dates: Seq::empty(),
                last_extend_date: None,
                anchor_date: None,
            },
        },
        settings: match d.settings {
            BackupField::Present(s) => SettingsView { extra: without_browser_only(s@.extra), ..s@ },
            _ => default_settings(),
        },
        last_category: restored_category(d),
        notion_export_log: match d.notion_export_log {
            BackupField::Present(l) => text_map_view(l@),
            _ => Map::empty(),
        },
        ..old
    }
}

fn field_check<T>(f: &BackupField<T>, k: BackupKey) -> (r: Option<ImportError>)
    ensures
        match r {
            Some(e) => field_error(*f, k) == Some(e@),
            None => field_error(*f, k) is None,
        },
{
    match f {
        BackupField::Invalid(m) => Some(ImportError::InvalidField { field: k, detail: m.clone() }),
        _ => None,
    }
}

fn category_of(d: &BackupData) -> (r: Option<String>)
    ensures
        opt_text(r) == restored_category(*d),
{
    match &d.last_category {
        BackupText::Text(s) => Some(s.clone()),
        BackupText::NotText => None,
        BackupText::Absent => match &d.last_task_category {
            BackupText::Text(s) => Some(s.clone()),
            _ => None,
        },
    }
}

fn check_backup(doc: &BackupDocument) -> (r: Option<ImportError>)
    ensures
        match r {
            Some(e) => import_error(*doc) == Some(e@),
            None => import_error(*doc) is None,
        },
{
    match doc {
        BackupDocument::NotJson => Some(ImportError::NotJson),
        BackupDocument::NotObject => Some(ImportError::NotObject),
        BackupDocument::Object { schema_version, data } => {
            let v = *schema_version;
            if v != 1 && v != BACKUP_SCHEMA_VERSION {
                return Some(ImportError::UnsupportedVersion(v));
            }
            match data {
                None => Some(ImportError::MissingData),
                Some(d) => {
                    let e = field_check(&d.stats, BackupKey::Stats);
                    if e.is_some() {
                        return e;
                    }
                    let e = field_check(&d.tasks_today, BackupKey::TasksToday);
                    if e.is_some() {
                        return e;
                    }
                    let e = field_check(&d.tasks_archive, BackupKey::TasksArchive);
                    if e.is_some() {
                        return e;
                    }
                    let e = field_check(&d.badges_state, BackupKey::BadgesState);
                    if e.is_some() {
                        return e;
                    }
                    let e = field_check(&d.settings, BackupKey::Settings);
                    if e.is_some() {
                        return e;
                    }
                    let e = field_check(&d.notion_export_log, BackupKey::NotionExportLog);
                    if e.is_some() {
                        return e;
                    }
                    let something = match &d.stats {
                        BackupField::Present(_) => true,
                        _ => false,
                    } || match &d.tasks_today {
                        BackupField::Present(_) => true,
                        _ => false,
                    } || match &d.tasks_archive {
                        BackupField::Present(_) => true,
                        _ => false,
                    } || match &d.badges_state {
                        BackupField::Present(_) => true,
                        _ => false,
                    } || match &d.settings {
                        BackupField::Present(_) => true,
                        _ => false,
                    } || category_of(d).is_some() || match &d.notion_export_log {
                        BackupField::Present(_) => true,
                        _ => false,
                    };
                    if !something {
                        return Some(ImportError::NothingToRestore);
                    }
                    None
                },
            }
        },
    }
}

/// Restores a backup into `data`: all of it, or, on an error, nothing.
/// Returns the number of days of statistics afterwards.
pub fn import_backup(data: &mut StoreData, doc: BackupDocument) -> (r: Result<u32, ImportError>)
    ensures
        match r {
            Ok(days) => import_error(doc) is None && (doc matches BackupDocument::Object {
                data: Some(d),
                ..
            } && final(data)@ == restored(old(data)@, d) && days == (final(data)@.stats.len() as u32)),
            Err(e) => import_error(doc) == Some(e@) && final(data)@ == old(data)@,
        },
{
    match check_backup(&doc) {
        Some(e) => return Err(e),
        None => {},
    }
    let d = match doc {
        BackupDocument::Object { data: Some(d), .. } => d,
        _ => {
            proof {
                assert(false);
            }
            return Err(ImportError::MissingData);
        },
    };
    let ghost d0 = d;
    let last_category = category_of(&d);
    let BackupData { stats, tasks_today, tasks_archive, badges_state, settings, notion_export_log, .. } = d;
    data.stats = match stats {
        BackupField::Present(m) => m,
        _ => DateMap::new(),
    };
    data.tasks_today = match tasks_today {
        BackupField::Present(t) => t,
        _ => TasksToday::default(),
    };
    data.tasks_archive = match tasks_archive {
        BackupField::Present(m) => m,
        _ => {
            let m = DateMap::new();
            assert(archive_view(m@) =~= Map::empty());
            m
        },
    };
    data.badges_state = match badges_state {
        BackupField::Present(b) => b,
        _ => BadgesState::default(),
    };
    data.settings = match settings {
        BackupField::Present(s) => {
            let mut s = s;
            let ghost old_extra = s.extra@;
            let _ = s.extra.remove("lockscreenBg");
            proof {
                assert(text_map_view(s.extra@) =~= without_browser_only(text_map_view(old_extra)));
            }
            s
        },
        _ => Settings::default(),
    };
    data.last_category = last_category;
    data.notion_export_log = match notion_export_log {
        BackupField::Present(l) => l,
        _ => {
            let l: DateMap<String> = DateMap::new();
            assert(text_map_view(l@) =~= Map::empty());
            l
        },
    };
    let days = data.stats.len() as u32;
    Ok(days)
}

/// What a backup file carries: its version and the seven keys of its
/// `data` object.  The timer, the quota and the Notion settings (with the
/// token) have no place in it.
pub struct BackupPayload<'a> {
    pub schema_version: u64,
    pub stats: &'a DateMap<StatEntry>,
    pub tasks_today: &'a TasksToday,
    pub tasks_archive: &'a DateMap<Vec<Task>>,
    pub badges_state: &'a BadgesState,
    pub settings: &'a Settings,
    pub last_category: &'a Option<String>,
    pub notion_export_log: &'a DateMap<String>,
}

/// The part of the store that a backup exports, at the current version.
pub fn backup_payload<'a>(data: &'a StoreData) -> (r: BackupPayload<'a>)
    ensures
        r.schema_version == BACKUP_SCHEMA_VERSION,
        *r.stats == data.stats,
        *r.tasks_today == data.tasks_today,
        *r.tasks_archive == data.tasks_archive,
        *r.badges_state == data.badges_state,
        *r.settings == data.settings,
        *r.last_category == data.last_category,
        *r.notion_export_log == data.notion_export_log,
{
    BackupPayload {
        schema_version: BACKUP_SCHEMA_VERSION,
        stats: &data.stats,
        tasks_today: &data.tasks_today,
        tasks_archive: &data.tasks_archive,
        badges_state: &data.badges_state,
        settings: &data.settings,
        last_category: &data.last_category,
        notion_export_log: &data.notion_export_log,
    }
}

} // verus!
