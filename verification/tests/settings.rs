use screentime_pro::backup::{
    auto_backup_due, backup_dir_choice, backup_file_name, expired_backups, previous_backup,
    save_backup_config, BackupConfig,
};
use screentime_pro::settings::SettingsStore;
use screentime_pro::status_bar::StatusBarConfig;

#[test]
fn store_get_after_set() {
    let mut s = SettingsStore::new();
    assert_eq!(s.get_setting("a"), None);
    s.set_setting("a", "1");
    s.set_setting("b", "2");
    s.set_setting("a", "3");
    assert_eq!(s.get_setting("a").as_deref(), Some("3"));
    assert_eq!(s.get_setting("b").as_deref(), Some("2"));
    let t = SettingsStore::from_rows(vec![("x".into(), "1".into()), ("x".into(), "2".into())]);
    assert_eq!(t.get_setting("x").as_deref(), Some("2"));
    assert_eq!(t.rows().len(), 2);
}

#[test]
fn status_bar_defaults_and_migration() {
    let d = StatusBarConfig::default();
    assert!(!d.enabled && d.show_cpu && d.show_mem && !d.show_disk && d.show_net && !d.float_enabled);
    let mut s = SettingsStore::new();
    let c = StatusBarConfig::load(&s);
    assert!(!c.enabled && c.show_cpu && c.show_mem && !c.show_disk && c.show_net && !c.float_enabled);
    s.set_setting("statusbar_metrics_enabled", "true");
    assert!(StatusBarConfig::load(&s).enabled);
    s.set_setting("status_bar_enabled", "false");
    assert!(!StatusBarConfig::load(&s).enabled);
}

#[test]
fn status_bar_round_trip() {
    let mut s = SettingsStore::new();
    let c = StatusBarConfig { enabled: true, show_cpu: false, show_mem: true, show_disk: true, show_net: false, float_enabled: true };
    c.save(&mut s);
    let b = StatusBarConfig::load(&s);
    assert_eq!((b.enabled, b.show_cpu, b.show_mem, b.show_disk, b.show_net, b.float_enabled), (true, false, true, true, false, true));
    assert_eq!(s.get_setting("statusbar_metrics_enabled").as_deref(), Some("true"));
}

#[test]
fn backup_config_load_and_save() {
    let mut s = SettingsStore::new();
    let c = BackupConfig::load(&s);
    assert!(!c.enabled);
    assert_eq!(c.path, "");
    assert_eq!(c.keep_days, 30);
    assert_eq!(c.last_date, "");
    assert!(save_backup_config(&mut s, true, "  ", 7, Ok(())).is_ok());
    let c = BackupConfig::load(&s);
    assert!(c.enabled);
    assert_eq!(c.path, "");
    assert_eq!(c.keep_days, 7);
    let e = save_backup_config(&mut s, false, "/nope", 9, Err("denied".into()));
    assert_eq!(e, Err("无法创建备份目录：denied".to_string()));
    let c = BackupConfig::load(&s);
    assert!(!c.enabled);
    assert_eq!(c.keep_days, 7);
    assert!(save_backup_config(&mut s, true, "/data/bk", 3, Ok(())).is_ok());
    assert_eq!(BackupConfig::load(&s).path, "/data/bk");
    s.set_setting("backup_keep_days", "many");
    assert_eq!(BackupConfig::load(&s).keep_days, 30);
}

#[test]
fn backup_due_and_folder() {
    let mut s = SettingsStore::new();
    assert!(!auto_backup_due(&s, "2025-01-02"));
    s.set_setting("backup_enabled", "true");
    assert!(auto_backup_due(&s, "2025-01-02"));
    s.set_setting("backup_last_date", "2025-01-02");
    assert!(!auto_backup_due(&s, "2025-01-02"));
    assert_eq!(backup_dir_choice(Some("/o"), &s).as_deref(), Some("/o"));
    assert_eq!(backup_dir_choice(Some(" "), &s), None);
    s.set_setting("backup_path", "/p");
    assert_eq!(backup_dir_choice(None, &s).as_deref(), Some("/p"));
    assert_eq!(backup_file_name("2025-01-02"), "screentime_backup_2025-01-02.json");
}

#[test]
fn previous_and_expired_backups() {
    let names: Vec<String> = vec![
        "screentime_backup_2025-01-01.json".into(),
        "notes.txt".into(),
        "screentime_backup_2025-01-03.json".into(),
        "screentime_backup_2025-01-05.json".into(),
        "screentime_backup_2024-12-31.json".into(),
    ];
    assert_eq!(previous_backup(&names, "2025-01-05"), Some(2));
    assert_eq!(previous_backup(&names, "2024-12-31"), None);
    assert_eq!(expired_backups(&names, "2025-01-03"), vec![0, 4]);
    assert_eq!(expired_backups(&names, "2000-01-01"), Vec::<usize>::new());
}
