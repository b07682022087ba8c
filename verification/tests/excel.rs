use hearth::excel::{import_client, import_project_rows, import_schedule_rows};

fn row(cells: &[&str]) -> Vec<String> {
    cells.iter().map(|c| c.to_string()).collect()
}

#[test]
fn project_rows_get_per_priority_sort_orders() {
    let rows = vec![
        row(&["우선순위", "번호", "이름", "분류", "경로", "평가"]),
        row(&[" P0 ", "3", " Alpha ", "업무 Active", " /a ", ""]),
        row(&["P1", "x", "Beta"]),
        row(&["P0", "", "Gamma", "  ", "", " ok "]),
        row(&["P9", "1", "Unknown"]),
        row(&["P2", "1", "  "]),
        row(&["P0", "1"]),
    ];
    let out = import_project_rows(&rows);
    assert_eq!(out.len(), 3);
    assert_eq!(out[0].priority, "P0");
    assert_eq!(out[0].number, Some(3));
    assert_eq!(out[0].name, "Alpha");
    assert_eq!(out[0].category, Some("Active".to_string()));
    assert_eq!(out[0].path, Some("/a".to_string()));
    assert_eq!(out[0].evaluation, None);
    assert_eq!(out[0].sort_order, 1);
    assert_eq!(out[1].name, "Beta");
    assert_eq!(out[1].number, None);
    assert_eq!(out[1].category, None);
    assert_eq!(out[1].sort_order, 1);
    assert_eq!(out[2].name, "Gamma");
    assert_eq!(out[2].category, Some("  ".to_string()));
    assert_eq!(out[2].evaluation, Some("ok".to_string()));
    assert_eq!(out[2].sort_order, 2);
}

#[test]
fn header_only_sheet_imports_nothing() {
    assert!(import_project_rows(&vec![row(&["P0", "1", "Header"])]).is_empty());
    assert!(import_project_rows(&vec![]).is_empty());
}

#[test]
fn schedules_start_after_their_heading() {
    let rows = vec![
        row(&["2026-01-01 before heading", "09:00"]),
        row(&["출장 일정"]),
        row(&["날짜", "시간", "장소", "내용", "비고"]),
        row(&["2026-04-20 (월)", " 10:00 ", "대전", "", "메모"]),
        row(&["2026/4/21", "11:00"]),
        row(&["   "]),
        row(&["2026-04-22"]),
    ];
    let out = import_schedule_rows(&rows);
    assert_eq!(out.len(), 2);
    assert_eq!(out[0].date, "2026-04-20");
    assert_eq!(out[0].time, Some("10:00".to_string()));
    assert_eq!(out[0].location, Some("대전".to_string()));
    assert_eq!(out[0].description, None);
    assert_eq!(out[0].notes, Some("메모".to_string()));
    assert_eq!(out[1].date, "2026-04-22");
    assert_eq!(out[1].time, None);
}

#[test]
fn client_section_collects_its_pairs() {
    let rows = vec![
        row(&["회사명", "ignored before section"]),
        row(&["의뢰 업체"]),
        row(&[" 회사명 ", " 한빛 "]),
        row(&["대표", "김대표"]),
        row(&["대전 사무실", "대전시"]),
        row(&["팩스", ""]),
        row(&["대표", "이대표"]),
        row(&["출장 일정"]),
        row(&["상태", "진행"]),
    ];
    let c = import_client(&rows).expect("client");
    assert_eq!(c.company_name, Some("한빛".to_string()));
    assert_eq!(c.ceo, Some("이대표".to_string()));
    assert_eq!(c.fax, None);
    assert_eq!(c.status, None);
    let offices: std::collections::BTreeMap<String, String> = serde_json::from_str(&c.offices).unwrap();
    assert_eq!(offices.get("대전").map(|s| s.as_str()), Some("대전시"));
    assert_eq!(offices.get("보령").map(|s| s.as_str()), Some(""));
}

#[test]
fn no_client_section_no_client() {
    assert!(import_client(&vec![row(&["회사명", "한빛"])]).is_none());
    assert!(import_client(&vec![row(&["의뢰 업체"]), row(&["회사명", ""])]).is_none());
}

#[test]
fn client_offices_are_compact_json_in_key_order() {
    let rows = vec![
        row(&["의뢰 업체"]),
        row(&["보령 사무실", "보령시"]),
        row(&["대전 사무실", "대전시"]),
    ];
    let c = import_client(&rows).expect("client");
    assert_eq!(c.offices, "{\"대전\":\"대전시\",\"보령\":\"보령시\"}");
}

#[test]
fn client_offices_escape_quotes_backslashes_and_controls() {
    let rows = vec![row(&["의뢰 업체"]), row(&["대전 사무실", "a\"b\\c\td\u{1}e"])];
    let c = import_client(&rows).expect("client");
    assert_eq!(c.offices, "{\"대전\":\"a\\\"b\\\\c\\td\\u0001e\",\"보령\":\"\"}");
}
