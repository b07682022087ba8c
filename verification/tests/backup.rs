use hearth::backup::{backup_destination, backup_file_name, backups_to_prune, list_backups, pre_reset_file_name, reset_tables, BackupInfo};

fn info(name: &str) -> BackupInfo {
    BackupInfo { path: format!("/b/{name}"), filename: name.to_string(), size_bytes: 1, created: String::new() }
}

#[test]
fn retention_keeps_the_newest_five() {
    let names: Vec<String> = [
        "hearth-backup-2026-01-01-000000.db",
        "hearth-backup-2026-01-03-000000.db",
        "pre-reset-2026-01-02-000000.db",
        "hearth-backup-2026-01-02-000000.db",
        "hearth-backup-2026-01-06-000000.db",
        "hearth-backup-2026-01-05-000000.db",
        "hearth-backup-2026-01-04-000000.db",
        "notes.txt",
    ]
    .iter()
    .map(|s| s.to_string())
    .collect();
    assert_eq!(
        backups_to_prune(&names),
        vec!["hearth-backup-2026-01-01-000000.db".to_string()]
    );
}

#[test]
fn few_backups_are_all_kept() {
    let names = vec!["hearth-backup-a.db".to_string(), "hearth-backup-b.db".to_string()];
    assert!(backups_to_prune(&names).is_empty());
}

#[test]
fn backup_names_and_reset_tables() {
    assert_eq!(backup_file_name("2026-04-18-101500"), "hearth-backup-2026-04-18-101500.db");
    assert_eq!(pre_reset_file_name("2026-04-18-101500"), "pre-reset-2026-04-18-101500.db");
    assert_eq!(reset_tables(), vec!["memos", "schedules", "projects", "clients"]);
}

#[test]
fn restore_list_is_newest_first_and_only_backups() {
    let entries = vec![
        info("hearth-backup-2026-01-01.db"),
        info("random.db"),
        info("pre-reset-2026-02-01.db"),
        info("hearth-backup-2026-03-01.db"),
    ];
    let listed: Vec<String> = list_backups(entries).into_iter().map(|b| b.filename).collect();
    assert_eq!(
        listed,
        vec![
            "pre-reset-2026-02-01.db".to_string(),
            "hearth-backup-2026-03-01.db".to_string(),
            "hearth-backup-2026-01-01.db".to_string(),
        ]
    );
}

#[test]
fn retention_deletes_all_but_five_of_many() {
    let names: Vec<String> = (1..=8).map(|d| format!("hearth-backup-2026-01-0{d}.db")).collect();
    let pruned = backups_to_prune(&names);
    assert_eq!(
        pruned,
        vec![
            "hearth-backup-2026-01-01.db".to_string(),
            "hearth-backup-2026-01-02.db".to_string(),
            "hearth-backup-2026-01-03.db".to_string(),
        ]
    );
    let mut with_snapshots = names.clone();
    with_snapshots.push("pre-reset-2025-01-01.db".to_string());
    assert_eq!(backups_to_prune(&with_snapshots).len(), 3);
    assert!(backups_to_prune(&with_snapshots).iter().all(|n| n.starts_with("hearth-backup-")));
}

#[test]
fn backups_go_to_the_requested_file_or_the_folder() {
    assert_eq!(backup_destination(Some("/tmp/x.db".into()), "/b", "t"), "/tmp/x.db");
    assert_eq!(backup_destination(None, "/b", "2026-04-18-101500"), "/b/hearth-backup-2026-04-18-101500.db");
    assert_eq!(backup_destination(None, "/b/", "t"), "/b/hearth-backup-t.db");
}
