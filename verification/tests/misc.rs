use hearth::actions::{excel_clear_tables, open_in_terminal_impl, path_missing_message, terminal_unsupported_message};
use hearth::datafolder::{choose_folder_result, get_status, BookmarkFollowUp, ChoiceOutcome, Resolution};
use hearth::schedules::{flag_of, flag_value, month_pattern};
use hearth::store::{missing_reminder_columns, needs_backfill, quarantine_name, sidecar_names, sidecar_suffixes};
use hearth::watch::{change_events, DataVersionWatch};

#[test]
fn insert_select_roundtrips_reminder_flags() {
    let stored = (flag_value(true), flag_value(false));
    assert_eq!(stored, (1, 0));
    assert!(flag_of(stored.0));
    assert!(!flag_of(stored.1));
}

#[test]
fn month_filter_matches_dates_of_the_month() {
    assert_eq!(month_pattern("2026-04"), "2026-04%");
}

#[test]
fn data_folder_status_from_the_bookmark() {
    let (s, f) = get_status(false, None);
    assert!(!s.has_bookmark && s.resolved_path.is_none() && !s.stale && !s.dismissed);
    assert_eq!(f, BookmarkFollowUp::Keep);

    let (s, f) = get_status(true, Some(Resolution::Resolved { path: "/data".into(), stale: true }));
    assert!(s.has_bookmark && s.stale && s.dismissed);
    assert_eq!(s.resolved_path, Some("/data".to_string()));
    assert_eq!(f, BookmarkFollowUp::Renew("/data".to_string()));

    let (s, f) = get_status(false, Some(Resolution::Failed));
    assert!(!s.has_bookmark);
    assert_eq!(f, BookmarkFollowUp::Forget);

    assert_eq!(choose_folder_result(ChoiceOutcome::Cancelled).unwrap_err(), "user_cancelled");
    assert_eq!(choose_folder_result(ChoiceOutcome::NoUrl).unwrap_err(), "NSOpenPanel returned no URL");
    assert_eq!(
        choose_folder_result(ChoiceOutcome::Picked("/d".into())).unwrap().resolved_path,
        "/d"
    );
}

#[test]
fn corrupt_database_files_are_renamed_aside() {
    assert_eq!(quarantine_name(Some("data.db".into()), "20260418-101500"), "data.db.corrupt-20260418-101500");
    assert_eq!(quarantine_name(None, "t"), "data.db.corrupt-t");
    assert_eq!(sidecar_suffixes(), vec!["-wal", "-shm"]);
    assert_eq!(
        sidecar_names(Some("x.db".into()), "-wal", "t"),
        ("x.db-wal".to_string(), "x.db-wal.corrupt-t".to_string())
    );
}

#[test]
fn migrations_add_missing_columns_and_rebuild_empty_indexes() {
    let legacy: Vec<String> = ["id", "date", "time"].iter().map(|s| s.to_string()).collect();
    assert_eq!(missing_reminder_columns(&legacy), (true, true));
    let current: Vec<String> = ["id", "remind_before_5min", "remind_at_start"].iter().map(|s| s.to_string()).collect();
    assert_eq!(missing_reminder_columns(&current), (false, false));
    assert!(needs_backfill(3, 0));
    assert!(!needs_backfill(0, 0));
    assert!(!needs_backfill(3, 3));
}

#[test]
fn folder_actions_and_excel_clearing() {
    assert_eq!(path_missing_message("/nope"), "Path does not exist: /nope");
    assert!(open_in_terminal_impl(true).is_ok());
    assert_eq!(open_in_terminal_impl(false).unwrap_err(), "Terminal.app (com.apple.Terminal) not found");
    assert_eq!(terminal_unsupported_message(), "open_in_terminal is only supported on macOS");
    assert_eq!(excel_clear_tables(), vec!["memos", "schedules", "clients", "projects"]);
}

#[test]
fn watcher_reloads_only_when_the_version_moves() {
    let mut w = DataVersionWatch::new();
    assert!(!w.observe(Some(5)));
    assert!(!w.observe(Some(5)));
    assert!(!w.observe(None));
    assert!(w.observe(Some(6)));
    assert_eq!(w.last, Some(6));
    assert_eq!(change_events().len(), 4);
}
