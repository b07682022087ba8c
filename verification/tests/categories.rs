use hearth::categories::{
    check_delete, check_unique, clean_name, create_color, plan_update, rename_target,
    seed_categories, should_seed, CategoryError, CategoryRename, UpdateCategory,
    UpdateCategoryInput,
};

#[test]
fn create_rejects_duplicate() {
    let name = clean_name("Dup").unwrap();
    let err = check_unique(name, 1).unwrap_err();
    assert!(matches!(err, CategoryError::Duplicate(_)));
    assert_eq!(err.message(), "이미 존재하는 카테고리 이름입니다: Dup");
    assert_eq!(check_unique("Dup".to_string(), 0), Ok("Dup".to_string()));
}

#[test]
fn delete_refuses_if_in_use() {
    let err = check_delete("Hot".to_string(), 1).unwrap_err();
    match err {
        CategoryError::InUse { count, .. } => assert_eq!(count, 1),
        _ => panic!("expected InUse"),
    }
    assert_eq!(check_delete("Hot".to_string(), 0), Ok(()));
}

#[test]
fn names_are_trimmed_and_must_not_be_blank() {
    assert_eq!(clean_name("  Lab  "), Ok("Lab".to_string()));
    assert_eq!(clean_name(" \t"), Err(CategoryError::EmptyName));
    assert_eq!(CategoryError::EmptyName.message(), "카테고리 이름이 비어 있습니다");
    assert_eq!(CategoryError::NotFound(7).message(), "카테고리를 찾을 수 없음: id=7");
    assert_eq!(create_color(None), "#6b7280");
    assert_eq!(create_color(Some(" #fff ")), "#fff");
}

#[test]
fn rename_cascades_to_projects() {
    let patch = UpdateCategory { name: Some("Renamed"), color: None, sort_order: None };
    let target = rename_target("Custom", patch.name).unwrap();
    let plan = plan_update(1, "Custom".to_string(), target, &patch);
    assert_eq!(
        plan.rename,
        Some(CategoryRename { from: "Custom".to_string(), to: "Renamed".to_string() })
    );
    assert_eq!(plan.color, None);
    assert_eq!(plan.sort_order, None);
}

#[test]
fn update_plan_trims_color_and_keeps_order() {
    let patch = UpdateCategory { name: Some(" Focus "), color: Some(" #111 "), sort_order: Some(3) };
    let target = rename_target("Active", patch.name).unwrap();
    let plan = plan_update(4, "Active".to_string(), target, &patch);
    assert_eq!(plan.id, 4);
    assert_eq!(
        plan.rename,
        Some(CategoryRename { from: "Active".to_string(), to: "Focus".to_string() })
    );
    assert_eq!(plan.color, Some("#111".to_string()));
    assert_eq!(plan.sort_order, Some(3));
}

#[test]
fn renaming_to_the_same_name_is_no_rename() {
    assert_eq!(rename_target("Active", Some("Active ")), Ok(None));
    assert_eq!(rename_target("Active", None), Ok(None));
    assert_eq!(rename_target("Active", Some("  ")), Err(CategoryError::EmptyName));
}

#[test]
fn seeding_only_fills_an_empty_table() {
    assert!(should_seed(0));
    assert!(!should_seed(5));
    let seed = seed_categories();
    assert_eq!(seed.len(), 5);
    assert_eq!(seed[0], ("Active", "#22c55e", 0));
    assert_eq!(seed[4], ("Lecture", "#3b82f6", 4));
}

#[test]
fn update_input_becomes_a_patch() {
    let input = UpdateCategoryInput { name: None, color: Some("#222".into()), sort_order: None };
    let p = input.as_patch();
    assert_eq!(p.name, None);
    assert_eq!(p.color, Some("#222"));
    assert_eq!(p.sort_order, None);
}
