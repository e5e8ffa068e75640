use tomato_monster::backup::{
    import_backup, BackupData, BackupDocument, BackupField, BackupKey, BackupText, ImportError,
};
use tomato_monster::date_map::DateMap;
use tomato_monster::store::{
    BadgesState, Settings, StatEntry, StoreData, Task, TasksToday, TimerPhase,
};

fn empty_data() -> BackupData {
    BackupData {
        stats: BackupField::Absent,
        tasks_today: BackupField::Absent,
        tasks_archive: BackupField::Absent,
        badges_state: BackupField::Absent,
        settings: BackupField::Absent,
        last_category: BackupText::Absent,
        last_task_category: BackupText::Absent,
        notion_export_log: BackupField::Absent,
    }
}

/// The version-1 sample backup, as the reader hands it over.
fn v1_backup_sample() -> BackupDocument {
    let mut stats = DateMap::new();
    stats.upsert("2026-06-30".to_string(), StatEntry { completed: 5, rotten: 0 });
    stats.upsert("2026-07-01".to_string(), StatEntry { completed: 3, rotten: 1 });
    let tasks_today = TasksToday {
        date: "2026-07-01".to_string(),
        tasks: vec![Task {
            id: "1719800000000".to_string(),
            title: "旧任务".to_string(),
            planned: 4,
            used: 2,
            done: false,
            is_current: true,
            category: Some("学习".to_string()),
            ..Task::default()
        }],
    };
    let mut archive = DateMap::new();
    archive.upsert(
        "2026-06-30".to_string(),
        vec![Task {
            id: "\"t_abc\"".to_string(),
            title: "归档任务".to_string(),
            planned: 1,
            used: 1,
            done: true,
            ..Task::default()
        }],
    );
    let badges = BadgesState {
        badges: 2,
        unlocked_dates: vec!["2026-05-01".to_string(), "2026-06-15".to_string()],
        last_extend_date: Some("2026-06-20".to_string()),
        anchor_date: Some("2026-04-01".to_string()),
    };
    let mut settings = Settings::default();
    settings.chime_enabled = false;
    settings.long_break_every = 6;
    settings.theme = "monster".to_string();
    settings.extra.upsert("lockscreenBg".to_string(), "\"dawn\"".to_string());
    let mut log = DateMap::new();
    log.upsert("2026-06-30".to_string(), "{\"ok\":true,\"created\":1}".to_string());
    BackupDocument::Object {
        schema_version: 1,
        data: Some(BackupData {
            stats: BackupField::Present(stats),
            tasks_today: BackupField::Present(tasks_today),
            tasks_archive: BackupField::Present(archive),
            badges_state: BackupField::Present(badges),
            settings: BackupField::Present(settings),
            last_category: BackupText::Absent,
            last_task_category: BackupText::Text("学习".to_string()),
            notion_export_log: BackupField::Present(log),
        }),
    }
}

#[test]
fn import_v1_backup_maps_all_keys() {
    let mut d = StoreData::default();
    d.timer_state.state = TimerPhase::Focusing;
    d.quota_state.used = 2;
    let days = import_backup(&mut d, v1_backup_sample()).unwrap();
    assert_eq!(days, 2);
    assert_eq!(d.stats.get("2026-06-30").unwrap().completed, 5);
    assert_eq!(d.stats.get("2026-07-01").unwrap().rotten, 1);
    assert_eq!(d.tasks_today.tasks[0].title, "旧任务");
    assert_eq!(d.tasks_archive.get("2026-06-30").unwrap().len(), 1);
    assert_eq!(d.badges_state.badges, 2);
    assert!(!d.settings.chime_enabled);
    assert_eq!(d.settings.long_break_every, 6);
    assert!(d.settings.extra.get("lockscreenBg").is_none());
    assert_eq!(d.last_category.as_deref(), Some("学习"));
    let log: serde_json::Value =
        serde_json::from_str(d.notion_export_log.get("2026-06-30").unwrap()).unwrap();
    assert_eq!(d.notion_export_log.len(), 1);
    assert_eq!(log["created"], 1);
    assert_eq!(d.timer_state.state, TimerPhase::Focusing);
    assert_eq!(d.quota_state.used, 2);
}

#[test]
fn import_rejects_bad_files_without_touching_data() {
    let mut d = StoreData::default();
    d.stats.upsert("2026-07-17".to_string(), StatEntry { completed: 9, rotten: 0 });
    let before = format!("{:?}", d);

    let mut bad_stats = empty_data();
    bad_stats.stats = BackupField::Invalid("invalid type: string \"oops\", expected a map".to_string());
    let mut wrong_version = empty_data();
    wrong_version.stats = BackupField::Present(DateMap::new());
    let cases: Vec<(&str, BackupDocument)> = vec![
        ("损坏 JSON", BackupDocument::NotJson),
        ("版本不对", BackupDocument::Object { schema_version: 99, data: Some(wrong_version) }),
        ("缺 data", BackupDocument::Object { schema_version: 1, data: None }),
        ("空 data", BackupDocument::Object { schema_version: 1, data: Some(empty_data()) }),
        ("stats 类型错", BackupDocument::Object { schema_version: 1, data: Some(bad_stats) }),
    ];
    for (name, doc) in cases {
        let r = import_backup(&mut d, doc);
        assert!(r.is_err(), "{name} 应该被拒绝");
        assert_eq!(format!("{:?}", d), before, "{name} 不得改动数据");
    }
}

#[test]
fn import_error_messages() {
    assert_eq!(ImportError::NotJson.message(), "备份文件不是有效的 JSON");
    assert_eq!(ImportError::NotObject.message(), "备份文件不是有效的 JSON 对象");
    assert_eq!(ImportError::UnsupportedVersion(99).message(), "不支持的备份版本:99");
    assert_eq!(ImportError::MissingData.message(), "备份文件缺少 data 字段");
    assert_eq!(
        ImportError::InvalidField { field: BackupKey::Stats, detail: "bad".to_string() }.message(),
        "stats 字段格式无效(bad)"
    );
    assert_eq!(ImportError::NothingToRestore.message(), "备份文件里没有可恢复的数据");
}

#[test]
fn import_errors_in_order() {
    let mut d = StoreData::default();
    let r = import_backup(&mut d, BackupDocument::NotObject);
    assert!(matches!(r, Err(ImportError::NotObject)));
    let r = import_backup(&mut d, BackupDocument::Object { schema_version: 0, data: None });
    assert!(matches!(r, Err(ImportError::UnsupportedVersion(0))));
    let mut two_bad = empty_data();
    two_bad.settings = BackupField::Invalid("x".to_string());
    two_bad.tasks_today = BackupField::Invalid("y".to_string());
    let r = import_backup(&mut d, BackupDocument::Object { schema_version: 2, data: Some(two_bad) });
    match r {
        Err(ImportError::InvalidField { field, detail }) => {
            assert_eq!(field, BackupKey::TasksToday);
            assert_eq!(detail, "y");
        }
        _ => panic!("expected the first invalid field"),
    }
}

#[test]
fn import_resets_missing_keys_and_prefers_last_category() {
    let mut d = StoreData::default();
    d.badges_state.badges = 5;
    d.settings.theme = "default".to_string();
    d.last_category = Some("old".to_string());
    let mut data = empty_data();
    data.last_category = BackupText::Text("工作".to_string());
    data.last_task_category = BackupText::Text("学习".to_string());
    let days = import_backup(&mut d, BackupDocument::Object { schema_version: 2, data: Some(data) }).unwrap();
    assert_eq!(days, 0);
    assert_eq!(d.badges_state.badges, 0);
    assert_eq!(d.settings.theme, "monster");
    assert_eq!(d.last_category.as_deref(), Some("工作"));

    let mut data = empty_data();
    data.last_category = BackupText::NotText;
    data.last_task_category = BackupText::Text("学习".to_string());
    data.notion_export_log = BackupField::Present(DateMap::new());
    import_backup(&mut d, BackupDocument::Object { schema_version: 1, data: Some(data) }).unwrap();
    assert_eq!(d.last_category, None);
}

#[test]
fn import_drops_only_the_browser_settings_key() {
    let mut settings = Settings::default();
    settings.extra.upsert("lockscreenBg".to_string(), "\"dawn\"".to_string());
    settings.extra.upsert("soundPack".to_string(), "\"rain\"".to_string());
    let mut data = empty_data();
    data.settings = BackupField::Present(settings);
    let mut d = StoreData::default();
    import_backup(&mut d, BackupDocument::Object { schema_version: 2, data: Some(data) }).unwrap();
    assert!(d.settings.extra.get("lockscreenBg").is_none());
    assert_eq!(d.settings.extra.get("soundPack").map(|v| v.as_str()), Some("\"rain\""));
    assert_eq!(d.settings.extra.len(), 1);
    assert_eq!(d.notion_export_log.len(), 0);
}

fn sample_store() -> StoreData {
    let mut d = StoreData::default();
    d.stats.upsert("2026-07-16".to_string(), StatEntry { completed: 6, rotten: 1 });
    d.tasks_today.date = "2026-07-17".to_string();
    d.tasks_today.tasks.push(Task { id: "t1".to_string(), title: "写报告".to_string(), planned: 2, ..Task::default() });
    d.badges_state.badges = 3;
    d.settings.theme = "monster".to_string();
    d.settings.extra.upsert("lockscreenBg".to_string(), "\"dawn\"".to_string());
    d.last_category = Some("工作".to_string());
    d.notion_export_log.upsert("2026-07-16".to_string(), "{\"ok\":true}".to_string());
    d
}

#[test]
fn restoring_an_export_gives_it_back() {
    let src = sample_store();
    let copy = sample_store();
    let data = BackupData {
        stats: BackupField::Present(copy.stats),
        tasks_today: BackupField::Present(copy.tasks_today),
        tasks_archive: BackupField::Present(copy.tasks_archive),
        badges_state: BackupField::Present(copy.badges_state),
        settings: BackupField::Present(copy.settings),
        last_category: BackupText::Text(copy.last_category.unwrap()),
        last_task_category: BackupText::Absent,
        notion_export_log: BackupField::Present(copy.notion_export_log),
    };
    let mut d = StoreData::default();
    d.timer_state.state = TimerPhase::Focusing;
    d.quota_state.used = 1;
    let days = import_backup(&mut d, BackupDocument::Object { schema_version: 2, data: Some(data) }).unwrap();
    assert_eq!(days, 1);
    assert_eq!(format!("{:?}", d.stats), format!("{:?}", src.stats));
    assert_eq!(format!("{:?}", d.tasks_today), format!("{:?}", src.tasks_today));
    assert_eq!(d.badges_state.badges, 3);
    assert_eq!(d.settings.theme, "monster");
    assert!(d.settings.extra.get("lockscreenBg").is_none());
    assert_eq!(d.last_category, src.last_category);
    assert_eq!(format!("{:?}", d.notion_export_log), format!("{:?}", src.notion_export_log));
    assert_eq!(d.timer_state.state, TimerPhase::Focusing);
    assert_eq!(d.quota_state.used, 1);
}
