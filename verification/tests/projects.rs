use hearth::projects::{bookmark_on_create, bookmark_on_update, BookmarkWrite};
use hearth::models::Project;
use hearth::projects::{filter_projects, like_pattern, project_patch_columns, ProjectFilter, UpdateProject};
use hearth::sql::{next_sort_order, reorder_pairs, update_statement};

fn project(id: i64, priority: &str, category: Option<&str>) -> Project {
    Project {
        id,
        priority: priority.to_string(),
        number: None,
        name: format!("p{id}"),
        category: category.map(|c| c.to_string()),
        path: None,
        evaluation: None,
        sort_order: 0,
        created_at: String::new(),
        updated_at: String::new(),
    }
}

#[test]
fn patch_writes_only_given_fields() {
    let patch = UpdateProject { name: Some("renamed"), priority: None, category: None, path: None, evaluation: Some("good") };
    let cols = project_patch_columns(&patch).unwrap();
    assert_eq!(cols, vec![("name", "renamed".to_string()), ("evaluation", "good".to_string())]);
    let names: Vec<&'static str> = cols.iter().map(|c| c.0).collect();
    assert_eq!(
        update_statement("projects", &names),
        "UPDATE projects SET name = ?, evaluation = ?, updated_at = datetime('now') WHERE id = ?"
    );
}

#[test]
fn empty_patch_is_refused() {
    let patch = UpdateProject { name: None, priority: None, category: None, path: None, evaluation: None };
    assert_eq!(project_patch_columns(&patch).unwrap_err(), "no fields to update");
}

#[test]
fn filter_keeps_listed_priorities_and_categories() {
    let all = vec![
        project(1, "P0", Some("Active")),
        project(2, "P1", Some("Side")),
        project(3, "P0", None),
        project(4, "P2", Some("Active")),
    ];
    let f = ProjectFilter { priorities: Some(vec!["P0".into()]), categories: Some(vec![]) };
    let ids: Vec<i64> = filter_projects(all.clone(), Some(&f)).iter().map(|p| p.id).collect();
    assert_eq!(ids, vec![1, 3]);
    let f = ProjectFilter { priorities: None, categories: Some(vec!["Active".into()]) };
    let ids: Vec<i64> = filter_projects(all.clone(), Some(&f)).iter().map(|p| p.id).collect();
    assert_eq!(ids, vec![1, 4]);
    assert_eq!(filter_projects(all, None).len(), 4);
}

#[test]
fn search_pattern_and_ordering_helpers() {
    assert_eq!(like_pattern("hearth"), "%hearth%");
    assert_eq!(reorder_pairs(&[9, 4, 7]), vec![(0, 9), (1, 4), (2, 7)]);
    assert_eq!(next_sort_order(0), 1);
    assert_eq!(next_sort_order(41), 42);
}

#[test]
fn folder_bookmarks_follow_the_request() {
    assert_eq!(bookmark_on_update(None), BookmarkWrite::Keep);
    assert_eq!(bookmark_on_update(Some(vec![])), BookmarkWrite::Clear);
    assert_eq!(bookmark_on_update(Some(vec![1, 2])), BookmarkWrite::Save(vec![1, 2]));
    assert_eq!(bookmark_on_create(Some(vec![])), BookmarkWrite::Keep);
    assert_eq!(bookmark_on_create(None), BookmarkWrite::Keep);
    assert_eq!(bookmark_on_create(Some(vec![9])), BookmarkWrite::Save(vec![9]));
}
