use hearth::export::{category_values, match_query, DumpedCategory, ImportReport, ItemKind, MergeAction};

#[test]
fn merge_counts_inserts_and_duplicates() {
    let mut r = ImportReport::new(false);
    assert_eq!(r.record(ItemKind::Category, 0), MergeAction::Insert { write: true });
    assert_eq!(r.record(ItemKind::Project, 2), MergeAction::Skip);
    assert_eq!(r.record(ItemKind::Memo, 0), MergeAction::Insert { write: true });
    assert_eq!(r.record(ItemKind::Schedule, 0), MergeAction::Insert { write: true });
    assert_eq!(r.record(ItemKind::Memo, 1), MergeAction::Skip);
    assert_eq!(r.inserted_categories, 1);
    assert_eq!(r.inserted_projects, 0);
    assert_eq!(r.inserted_memos, 1);
    assert_eq!(r.inserted_schedules, 1);
    assert_eq!(r.skipped_duplicates, 2);
    assert!(r.commits());
}

#[test]
fn dry_run_counts_but_writes_nothing() {
    let mut r = ImportReport::new(true);
    assert_eq!(r.record(ItemKind::Project, 0), MergeAction::Insert { write: false });
    assert_eq!(r.inserted_projects, 1);
    assert!(r.dry_run);
    assert!(!r.commits());
}

#[test]
fn dumped_categories_get_defaults() {
    let c = DumpedCategory { name: None, color: None, sort_order: None };
    assert_eq!(category_values(&c), (String::new(), "#6b7280".to_string(), 0));
    let c = DumpedCategory { name: Some("Lab".into()), color: Some("#abc".into()), sort_order: Some(4) };
    assert_eq!(category_values(&c), ("Lab".to_string(), "#abc".to_string(), 4));
}

fn merge_all(dry_run: bool, items: &[(ItemKind, i64)]) -> ImportReport {
    let mut r = ImportReport::new(dry_run);
    for (kind, existing) in items {
        r.record(*kind, *existing);
    }
    r
}

#[test]
fn dry_run_reports_what_the_real_merge_reports() {
    let items = [(ItemKind::Category, 0), (ItemKind::Project, 1), (ItemKind::Memo, 0), (ItemKind::Schedule, 3)];
    let dry = merge_all(true, &items);
    let real = merge_all(false, &items);
    assert_eq!(dry.inserted_categories, real.inserted_categories);
    assert_eq!(dry.inserted_projects, real.inserted_projects);
    assert_eq!(dry.inserted_memos, real.inserted_memos);
    assert_eq!(dry.inserted_schedules, real.inserted_schedules);
    assert_eq!(dry.skipped_duplicates, real.skipped_duplicates);
    assert!(!dry.commits());
    assert!(real.commits());
}

#[test]
fn second_import_only_skips() {
    let first = [(ItemKind::Category, 0), (ItemKind::Project, 0), (ItemKind::Memo, 0), (ItemKind::Schedule, 0)];
    let r1 = merge_all(false, &first);
    assert_eq!(
        r1.inserted_categories + r1.inserted_projects + r1.inserted_memos + r1.inserted_schedules + r1.skipped_duplicates,
        4
    );
    let again = [(ItemKind::Category, 1), (ItemKind::Project, 1), (ItemKind::Memo, 1), (ItemKind::Schedule, 1)];
    let r2 = merge_all(false, &again);
    assert_eq!(r2.inserted_categories + r2.inserted_projects + r2.inserted_memos + r2.inserted_schedules, 0);
    assert_eq!(r2.skipped_duplicates, 4);
}

#[test]
fn schedule_matches_treat_missing_and_empty_alike() {
    assert_eq!(match_query(ItemKind::Category), "SELECT COUNT(*) FROM categories WHERE name = ?1");
    assert!(match_query(ItemKind::Schedule).contains("COALESCE(time,'') = COALESCE(?2,'')"));
    assert!(match_query(ItemKind::Schedule).contains("COALESCE(description,'') = COALESCE(?3,'')"));
}
