use hearth::cli::{
    category_in_use_message, check_import_args, data_dir, default_db_path, find_category_id,
    import_replaces, legacy_data_dir, memo_project_patch, memo_tags_patch, not_found_message,
    pre_import_backup_name, replace_truncation_order, resolve_db_path, scope_allows,
    should_move_legacy_dir, ImportArgs,
};
use hearth::models::Category;

fn import_args(replace: bool, merge: bool, dry_run: bool, yes: bool) -> ImportArgs {
    ImportArgs { file: "dump.json".into(), replace, merge, dry_run, yes }
}

#[test]
fn db_path_prefers_flag_then_env_then_default() {
    assert_eq!(
        resolve_db_path(Some("/a.db".into()), Some("/b.db".into()), Some("/c.db".into())).unwrap(),
        "/a.db"
    );
    assert_eq!(resolve_db_path(None, Some("/b.db".into()), Some("/c.db".into())).unwrap(), "/b.db");
    assert_eq!(resolve_db_path(None, None, Some("/c.db".into())).unwrap(), "/c.db");
    assert_eq!(
        resolve_db_path(None, None, None).unwrap_err(),
        "could not resolve default DB path. Pass --db <PATH> or set HEARTH_DB=<PATH>."
    );
}

#[test]
fn default_db_path_lives_in_application_support() {
    assert_eq!(
        default_db_path(Some("/Users/genie".into())).unwrap(),
        "/Users/genie/Library/Application Support/com.codewithgenie.hearth/data.db"
    );
    assert_eq!(
        default_db_path(Some("/Users/genie/".into())).unwrap(),
        "/Users/genie/Library/Application Support/com.codewithgenie.hearth/data.db"
    );
    assert_eq!(default_db_path(None), None);
    assert_eq!(
        legacy_data_dir("/Users/genie"),
        "/Users/genie/Library/Application Support/com.newturn2017.hearth"
    );
    assert_eq!(data_dir("/h"), "/h/Library/Application Support/com.codewithgenie.hearth");
    assert!(should_move_legacy_dir(false, true));
    assert!(!should_move_legacy_dir(true, true));
    assert!(!should_move_legacy_dir(false, false));
}

#[test]
fn import_needs_a_mode_and_confirmation() {
    assert_eq!(
        check_import_args(&import_args(false, false, false, false)).unwrap_err(),
        "specify --merge, --replace, or --dry-run"
    );
    assert_eq!(
        check_import_args(&import_args(true, false, false, false)).unwrap_err(),
        "--replace requires --yes to confirm the destructive operation"
    );
    assert!(check_import_args(&import_args(true, false, false, true)).is_ok());
    assert!(check_import_args(&import_args(true, false, true, false)).is_ok());
    assert!(check_import_args(&import_args(false, true, false, false)).is_ok());
    assert!(import_replaces(&import_args(true, false, false, true)));
    assert!(!import_replaces(&import_args(true, false, true, true)));
    assert_eq!(pre_import_backup_name("20260418T101500"), "pre-import-20260418T101500.db");
    assert_eq!(
        replace_truncation_order(),
        vec!["audit_log", "memos", "schedules", "projects", "categories"]
    );
}

#[test]
fn memo_update_flags_become_patches() {
    assert_eq!(memo_project_patch(true, Some(3)), Some(None));
    assert_eq!(memo_project_patch(false, Some(3)), Some(Some(3)));
    assert_eq!(memo_project_patch(false, None), None);
    assert_eq!(memo_tags_patch(true, vec!["a".into()]), Some(vec![]));
    assert_eq!(memo_tags_patch(false, vec!["a".into()]), Some(vec!["a".to_string()]));
    assert_eq!(memo_tags_patch(false, vec![]), None);
}

fn category(id: i64, name: &str) -> Category {
    Category {
        id,
        name: name.into(),
        color: "#000".into(),
        sort_order: 0,
        usage_count: 0,
        created_at: String::new(),
        updated_at: String::new(),
    }
}

#[test]
fn rename_finds_the_category_by_name() {
    let all = vec![category(1, "Active"), category(2, "Side"), category(3, "Side")];
    assert_eq!(find_category_id(&all, "Side"), Ok(2));
    assert_eq!(find_category_id(&all, "Lab").unwrap_err(), "카테고리를 찾을 수 없음: 'Lab'");
}

#[test]
fn cli_messages() {
    assert_eq!(category_in_use_message(3, "Side"), "카테고리 사용 중 (3개 프로젝트): Side");
    assert_eq!(not_found_message("project", 7), "project 7 not found");
    assert_eq!(not_found_message("memo", -1), "memo -1 not found");
    assert!(scope_allows(&vec![], "memo"));
    assert!(scope_allows(&vec!["memo".into(), "project".into()], "project"));
    assert!(!scope_allows(&vec!["memo".into()], "schedule"));
}
