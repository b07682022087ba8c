use hearth::memos::{
    check_memo_number, normalized_tag_names, update_by_number_content, PatchField,
    UpdateMemoByNumberInput, UpdateMemoTagInput,
};

#[test]
fn patch_field_maps_to_core_nullable_patch_shape() {
    assert_eq!(PatchField::<i64>::Unset.into_nullable_patch(), None);
    assert_eq!(PatchField::<i64>::Null.into_nullable_patch(), Some(None));
    assert_eq!(
        PatchField::Value(7_i64).into_nullable_patch(),
        Some(Some(7))
    );
}

#[test]
fn patch_field_defaults_to_unset() {
    assert_eq!(PatchField::<i64>::default(), PatchField::Unset);
}

#[test]
fn tag_names_are_trimmed_deduplicated_and_blank_free() {
    let names = vec![
        " 중요 ".to_string(),
        "검토".to_string(),
        "".to_string(),
        "중요".to_string(),
        "  ".to_string(),
    ];
    assert_eq!(normalized_tag_names(&names), vec!["중요".to_string(), "검토".to_string()]);
}

#[test]
fn memo_numbers_below_one_are_refused() {
    assert_eq!(check_memo_number(0).unwrap_err(), "#0 메모를 찾을 수 없음");
    assert_eq!(check_memo_number(-3).unwrap_err(), "#-3 메모를 찾을 수 없음");
    assert!(check_memo_number(1).is_ok());
}

#[test]
fn update_by_number_needs_a_number_and_content() {
    assert_eq!(
        update_by_number_content(0, UpdateMemoByNumberInput { content: Some("x".into()) }).unwrap_err(),
        "#0 메모를 찾을 수 없음"
    );
    assert_eq!(
        update_by_number_content(2, UpdateMemoByNumberInput { content: None }).unwrap_err(),
        "content is required for update_by_number"
    );
    assert_eq!(
        update_by_number_content(2, UpdateMemoByNumberInput { content: Some("next".into()) }).unwrap(),
        "next"
    );
}

#[test]
fn memo_tag_input_becomes_a_patch() {
    let input = UpdateMemoTagInput { name: Some("긴급검토".into()), color: None, sort_order: Some(9) };
    let p = input.as_patch();
    assert_eq!(p.name, Some("긴급검토"));
    assert_eq!(p.color, None);
    assert_eq!(p.sort_order, Some(9));
}

#[test]
fn memo_numbers_map_to_offsets() {
    assert_eq!(hearth::memos::number_offset(2), 1);
    assert_eq!(hearth::memos::number_offset(1), 0);
    assert_eq!(hearth::memos::number_offset(0), 0);
    assert_eq!(hearth::memos::number_offset(-5), 0);
}
