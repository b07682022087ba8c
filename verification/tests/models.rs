use hearth::memos::{memo_patch_columns, memo_tag_names, new_memo_style, NewMemo, UpdateMemo};
use hearth::models::{Memo, MemoFontSize, MemoTag};

#[test]
fn font_size_names_round_trip() {
    for f in [MemoFontSize::Small, MemoFontSize::Normal, MemoFontSize::Large] {
        assert_eq!(MemoFontSize::parse(f.as_str()).unwrap(), f);
    }
    assert_eq!(MemoFontSize::default(), MemoFontSize::Normal);
    assert_eq!(MemoFontSize::default_size(), MemoFontSize::Normal);
}

#[test]
fn update_rejects_invalid_font_size() {
    let err = memo_patch_columns(&UpdateMemo {
        content: None,
        color: None,
        project_id: None,
        font_size: Some("huge"),
        is_bold: None,
        focus_x_set: false,
        focus_y_set: false,
        tag_names: None,
    })
    .unwrap_err();
    assert!(err.contains("font_size"));
    assert_eq!(err, "invalid font_size: \"huge\"");
    assert_eq!(MemoFontSize::parse("Large").unwrap_err(), "invalid font_size: \"Large\"");
}

#[test]
fn empty_memo_patch_is_refused() {
    let patch = UpdateMemo {
        content: None,
        color: None,
        project_id: None,
        font_size: None,
        is_bold: None,
        focus_x_set: false,
        focus_y_set: false,
        tag_names: None,
    };
    assert_eq!(memo_patch_columns(&patch).unwrap_err(), "no fields");
}

#[test]
fn memo_tag_names_follow_the_memo_tags() {
    let tag = |id: i64, name: &str| MemoTag {
        id,
        name: name.to_string(),
        color: "#6b7280".into(),
        sort_order: 0,
        usage_count: 1,
        created_at: String::new(),
        updated_at: String::new(),
    };
    let memo = Memo {
        id: 1,
        content: "portable".into(),
        color: "blue".into(),
        project_id: None,
        sort_order: 1,
        font_size: MemoFontSize::Large,
        is_bold: true,
        tags: vec![tag(1, "중요"), tag(2, "검토")],
        created_at: String::new(),
        updated_at: String::new(),
    };
    assert_eq!(memo_tag_names(&memo), vec!["중요".to_string(), "검토".to_string()]);
}

#[test]
fn new_memo_style_defaults() {
    let input = NewMemo {
        content: "plain",
        color: "yellow",
        project_id: None,
        font_size: None,
        is_bold: None,
        tag_names: vec![],
    };
    let style = new_memo_style(&input).unwrap();
    assert_eq!(style.font_size, MemoFontSize::Normal);
    assert!(!style.is_bold);
    assert!(style.tags.is_empty());
}
