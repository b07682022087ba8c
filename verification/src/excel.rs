//! Importing a spreadsheet workbook: which rows of the `Projects` sheet
//! become projects (and in what order within their priority), which rows of
//! the `Priority` sheet become schedules, and the client record that sheet
//! describes. The cells arrive as text; reading the workbook and writing the
//! rows is the store layer's part.

use vstd::prelude::*;
use crate::text;
use crate::backup::str_lt;

verus! {

/// The cells of a row, by their text.
pub open spec fn row_view(row: Seq<String>) -> Seq<Seq<char>> {
    text::strs_view(row)
}

/// The rows of a sheet, by their cells' text.
pub open spec fn sheet_view(rows: Seq<Vec<String>>) -> Seq<Seq<Seq<char>>> {
    rows.map_values(|r: Vec<String>| text::strs_view(r@))
}

/// The cell at `k`, if the row has one.
pub open spec fn cell(row: Seq<Seq<char>>, k: int) -> Option<Seq<char>> {
    if 0 <= k < row.len() {
        Some(row[k])
    } else {
        None
    }
}

/// A cell trimmed, unless it is missing or blank.
pub open spec fn nonblank(c: Option<Seq<char>>) -> Option<Seq<char>> {
    match c {
        Some(s) => if text::trim_spec(s).len() > 0 {
            Some(text::trim_spec(s))
        } else {
            None
        },
        None => None,
    }
}

/// One of the five priorities.
pub open spec fn is_priority(p: Seq<char>) -> bool {
    p == "P0"@ || p == "P1"@ || p == "P2"@ || p == "P3"@ || p == "P4"@
}

/// The category of a project row: the last word of its fourth cell, or the
/// cell as it is when it has no word.
pub open spec fn category_of(row: Seq<Seq<char>>) -> Option<Seq<char>> {
    if row.len() > 3 {
        Some(
            match text::last_word(row[3]) {
                Some(w) => w,
                None => row[3],
            },
        )
    } else {
        None
    }
}

/// Priority, number, name, category, path, evaluation.
pub type ProjectFields = (
    Seq<char>,
    Option<i64>,
    Seq<char>,
    Option<Seq<char>>,
    Option<Seq<char>>,
    Option<Seq<char>>,
);

/// The project a row describes, if it describes one: at least three cells,
/// a known priority and a name that is not blank.
pub open spec fn project_fields(row: Seq<Seq<char>>) -> Option<ProjectFields> {
    if row.len() < 3 {
        None
    } else {
        let pr = text::trim_spec(row[0]);
        let name = text::trim_spec(row[2]);
        if !is_priority(pr) || name.len() == 0 {
            None
        } else {
            Some(
                (
                    pr,
                    text::parse_i64_spec(text::trim_spec(row[1])),
                    name,
                    category_of(row),
                    nonblank(cell(row, 4)),
                    nonblank(cell(row, 5)),
                ),
            )
        }
    }
}

/// A project row with its sort order.
pub type ProjectRowView = (ProjectFields, i64);

/// How many of `rows` have priority `p`.
pub open spec fn count_priority(rows: Seq<ProjectRowView>, p: Seq<char>) -> int
    decreases rows.len(),
{
    if rows.len() == 0 {
        0
    } else {
        count_priority(rows.drop_last(), p) + if rows.last().0.0 == p { 1int } else { 0int }
    }
}

/// The projects of the first `k` rows, the header row skipped; each gets
/// the next sort order of its priority, starting at 1.
pub open spec fn project_rows_upto(rows: Seq<Seq<Seq<char>>>, k: int) -> Seq<ProjectRowView>
    decreases k,
{
    if k <= 1 {
        Seq::empty()
    } else {
        let prev = project_rows_upto(rows, k - 1);
        match project_fields(rows[k - 1]) {
            None => prev,
            Some(f) => prev.push((f, (count_priority(prev, f.0) + 1) as i64)),
        }
    }
}

/// A project to import.
#[derive(Debug, Clone, PartialEq)]
pub struct ProjectImportRow {
    pub priority: String,
    pub number: Option<i64>,
    pub name: String,
    pub category: Option<String>,
    pub path: Option<String>,
    pub evaluation: Option<String>,
    pub sort_order: i64,
}

pub open spec fn project_row_view(r: ProjectImportRow) -> ProjectRowView {
    (
        (
            r.priority@,
            r.number,
            r.name@,
            text::opt_view(r.category),
            text::opt_view(r.path),
            text::opt_view(r.evaluation),
        ),
        r.sort_order,
    )
}

fn cell_of(row: &Vec<String>, k: usize) -> (r: Option<Vec<char>>)
    ensures
        match cell(row_view(row@), k as int) {
            Some(c) => r matches Some(v) && v@ == c,
            None => r is None,
        },
{
    if k < row.len() {
        Some(text::chars_of(row[k].as_str()))
    } else {
        None
    }
}

fn nonblank_of(c: Option<Vec<char>>) -> (r: Option<String>)
    ensures
        text::opt_view(r) == nonblank(
            match c {
                Some(v) => Some(v@),
                None => None,
            },
        ),
{
    match c {
        Some(v) => {
            let (a, b) = text::trim_bounds(v.as_slice());
            if a < b {
                Some(text::string_of(text::slice_subrange(v.as_slice(), a, b)))
            } else {
                None
            }
        },
        None => None,
    }
}

/// The index of a priority among P0..P4.
fn priority_index(p: &[char]) -> (r: Option<usize>)
    ensures
        is_priority(p@) <==> r is Some,
        r matches Some(i) ==> i < 5 && p@ == priority_name(i as int),
{
    if text::chars_eq_str(p, "P0") {
        Some(0)
    } else if text::chars_eq_str(p, "P1") {
        Some(1)
    } else if text::chars_eq_str(p, "P2") {
        Some(2)
    } else if text::chars_eq_str(p, "P3") {
        Some(3)
    } else if text::chars_eq_str(p, "P4") {
        Some(4)
    } else {
        None
    }
}

/// The name of the priority with index `i`.
pub open spec fn priority_name(i: int) -> Seq<char> {
    if i == 0 {
        "P0"@
    } else if i == 1 {
        "P1"@
    } else if i == 2 {
        "P2"@
    } else if i == 3 {
        "P3"@
    } else {
        "P4"@
    }
}

proof fn lemma_priority_names_distinct(i: int, j: int)
    requires
        0 <= i < 5,
        0 <= j < 5,
        i != j,
    ensures
        priority_name(i) != priority_name(j),
{
    reveal_strlit("P0");
    reveal_strlit("P1");
    reveal_strlit("P2");
    reveal_strlit("P3");
    reveal_strlit("P4");
    assert(priority_name(i)[1] != priority_name(j)[1]);
}

/// The project described by a row, without its sort order.
fn project_of_row(row: &Vec<String>) -> (r: Option<(usize, ProjectImportRow)>)
    ensures
        match project_fields(row_view(row@)) {
            None => r is None,
            Some(f) => r matches Some(x) && x.0 < 5 && f.0 == priority_name(x.0 as int)
                && project_row_view(x.1).0 == f,
        },
{
    if row.len() < 3 {
        return None;
    }
    let c0 = text::chars_of(row[0].as_str());
    let (a0, b0) = text::trim_bounds(c0.as_slice());
    let pr = text::slice_subrange(c0.as_slice(), a0, b0);
    let idx = match priority_index(pr) {
        Some(i) => i,
        None => {
            return None;
        },
    };
    let c2 = text::chars_of(row[2].as_str());
    let (a2, b2) = text::trim_bounds(c2.as_slice());
    if a2 == b2 {
        return None;
    }
    let name = text::string_of(text::slice_subrange(c2.as_slice(), a2, b2));
    let c1 = text::chars_of(row[1].as_str());
    let (a1, b1) = text::trim_bounds(c1.as_slice());
    let number = text::parse_i64(text::slice_subrange(c1.as_slice(), a1, b1));
    let category = if row.len() > 3 {
        let c3 = text::chars_of(row[3].as_str());
        match text::last_word_of(c3.as_slice()) {
            Some(w) => Some(text::string_of(w.as_slice())),
            None => Some(row[3].clone()),
        }
    } else {
        None
    };
    let path = nonblank_of(cell_of(row, 4));
    let evaluation = nonblank_of(cell_of(row, 5));
    Some(
        (
            idx,
            ProjectImportRow {
                priority: text::string_of(pr),
                number,
                name,
                category,
                path,
                evaluation,
                sort_order: 0,
            },
        ),
    )
}

/// `count_priority` counts no more rows than there are.
proof fn lemma_count_priority_bound(rows: Seq<ProjectRowView>, p: Seq<char>)
    ensures
        0 <= count_priority(rows, p) <= rows.len(),
    decreases rows.len(),
{
    if rows.len() > 0 {
        lemma_count_priority_bound(rows.drop_last(), p);
    }
}

/// The projects of the `Projects` sheet, in sheet order: the header row is
/// skipped, and so is every row without a known priority or a name; each
/// project gets the next sort order of its priority, starting at 1.
pub fn import_project_rows(rows: &Vec<Vec<String>>) -> (r: Vec<ProjectImportRow>)
    requires
        rows.len() < i64::MAX,
    ensures
        r@.map_values(|x: ProjectImportRow| project_row_view(x)) == project_rows_upto(
            sheet_view(rows@),
            rows.len() as int,
        ),
{
    let ghost sv = sheet_view(rows@);
    let mut out: Vec<ProjectImportRow> = Vec::new();
    let mut counters: Vec<i64> = vec![0, 0, 0, 0, 0];
    if rows.len() == 0 {
        assert(out@.map_values(|x: ProjectImportRow| project_row_view(x)) =~= Seq::empty());
        return out;
    }
    let mut i: usize = 1;
    assert(out@.map_values(|x: ProjectImportRow| project_row_view(x)) =~= Seq::empty());
    while i < rows.len()
        invariant
            1 <= i <= rows.len() < i64::MAX,
            sv == sheet_view(rows@),
            counters.len() == 5,
            out@.map_values(|x: ProjectImportRow| project_row_view(x)) == project_rows_upto(
                sv,
                i as int,
            ),
            out@.len() <= i,
            forall|j: int|
                0 <= j < 5 ==> #[trigger] counters@[j] == count_priority(
                    out@.map_values(|x: ProjectImportRow| project_row_view(x)),
                    priority_name(j),
                ),
        decreases rows.len() - i,
    {
        let ghost prev = out@.map_values(|x: ProjectImportRow| project_row_view(x));
        assert(row_view(rows@[i as int]@) == sv[i as int]);
        match project_of_row(&rows[i]) {
            None => {},
            Some((idx, row)) => {
                proof {
                    lemma_count_priority_bound(prev, priority_name(idx as int));
                }
                let order = counters[idx] + 1;
                counters.set(idx, order);
                let mut row = row;
                row.sort_order = order;
                out.push(row);
                proof {
                    let now = out@.map_values(|x: ProjectImportRow| project_row_view(x));
                    assert(now.drop_last() =~= prev);
                    assert forall|j: int| 0 <= j < 5 implies #[trigger] counters@[j] == count_priority(
                        now,
                        priority_name(j),
                    ) by {
                        if j != idx {
                            lemma_priority_names_distinct(j, idx as int);
                        }
                    }
                }
            },
        }
        i += 1;
    }
    out
}

/// The first cell of a row, or nothing when the row is empty.
pub open spec fn first_cell(row: Seq<Seq<char>>) -> Seq<char> {
    if row.len() > 0 {
        row[0]
    } else {
        Seq::empty()
    }
}

/// Date, time, location, description, notes.
pub type ScheduleView = (
    Seq<char>,
    Option<Seq<char>>,
    Option<Seq<char>>,
    Option<Seq<char>>,
    Option<Seq<char>>,
);

/// The date a schedule row starts with: the first word of its first cell,
/// when that word holds a `-` and takes at least ten bytes.
pub open spec fn schedule_date(first: Seq<char>) -> Option<Seq<char>> {
    match text::first_word(first) {
        Some(d) => if text::contains_spec(d, "-"@) && text::utf8_len(d) >= 10 {
            Some(d)
        } else {
            None
        },
        None => None,
    }
}

/// After the first `k` rows of the `Priority` sheet: whether the schedule
/// section has begun, and the schedules read so far. The section begins
/// after a row whose first cell holds `출장 일정`; a row whose first cell
/// holds `날짜` inside it is its header.
pub open spec fn schedule_scan(rows: Seq<Seq<Seq<char>>>, k: int) -> (bool, Seq<ScheduleView>)
    decreases k,
{
    if k <= 0 {
        (false, Seq::empty())
    } else {
        let (inside, found) = schedule_scan(rows, k - 1);
        let row = rows[k - 1];
        let first = first_cell(row);
        if text::contains_spec(first, "출장 일정"@) {
            (true, found)
        } else if text::contains_spec(first, "날짜"@) && inside {
            (inside, found)
        } else if inside && text::trim_spec(first).len() > 0 {
            match schedule_date(first) {
                Some(d) => (
                    inside,
                    found.push(
                        (
                            d,
                            nonblank(cell(row, 1)),
                            nonblank(cell(row, 2)),
                            nonblank(cell(row, 3)),
                            nonblank(cell(row, 4)),
                        ),
                    ),
                ),
                None => (inside, found),
            }
        } else {
            (inside, found)
        }
    }
}

/// A schedule to import.
#[derive(Debug, Clone, PartialEq)]
pub struct ScheduleImportRow {
    pub date: String,
    pub time: Option<String>,
    pub location: Option<String>,
    pub description: Option<String>,
    pub notes: Option<String>,
}

pub open spec fn schedule_row_view(r: ScheduleImportRow) -> ScheduleView {
    (
        r.date@,
        text::opt_view(r.time),
        text::opt_view(r.location),
        text::opt_view(r.description),
        text::opt_view(r.notes),
    )
}

fn first_cell_of(row: &Vec<String>) -> (r: Vec<char>)
    ensures
        r@ == first_cell(row_view(row@)),
{
    if row.len() > 0 {
        text::chars_of(row[0].as_str())
    } else {
        Vec::new()
    }
}

/// The schedules of the `Priority` sheet, in sheet order.
pub fn import_schedule_rows(rows: &Vec<Vec<String>>) -> (r: Vec<ScheduleImportRow>)
    ensures
        r@.map_values(|x: ScheduleImportRow| schedule_row_view(x)) == schedule_scan(
            sheet_view(rows@),
            rows.len() as int,
        ).1,
{
    let ghost sv = sheet_view(rows@);
    let mut out: Vec<ScheduleImportRow> = Vec::new();
    let mut inside = false;
    let mut i: usize = 0;
    assert(out@.map_values(|x: ScheduleImportRow| schedule_row_view(x)) =~= Seq::empty());
    while i < rows.len()
        invariant
            i <= rows.len(),
            sv == sheet_view(rows@),
            schedule_scan(sv, i as int) == (
                inside,
                out@.map_values(|x: ScheduleImportRow| schedule_row_view(x)),
            ),
        decreases rows.len() - i,
    {
        let ghost prev = out@.map_values(|x: ScheduleImportRow| schedule_row_view(x));
        let row = &rows[i];
        assert(row_view(row@) == sv[i as int]);
        let first = first_cell_of(row);
        if text::contains_str(first.as_slice(), "출장 일정") {
            inside = true;
        } else if text::contains_str(first.as_slice(), "날짜") && inside {
        } else {
            let (a, b) = text::trim_bounds(first.as_slice());
            if inside && a < b {
                match text::first_word_of(first.as_slice()) {
                    Some(d) => {
                        if text::contains_str(d.as_slice(), "-") && text::utf8_len_at_least(
                            d.as_slice(),
                            10,
                        ) {
                            out.push(
                                ScheduleImportRow {
                                    date: text::string_of(d.as_slice()),
                                    time: nonblank_of(cell_of(row, 1)),
                                    location: nonblank_of(cell_of(row, 2)),
                                    description: nonblank_of(cell_of(row, 3)),
                                    notes: nonblank_of(cell_of(row, 4)),
                                },
                            );
                            assert(out@.map_values(|x: ScheduleImportRow| schedule_row_view(x))
                                =~= schedule_scan(sv, i + 1).1);
                        }
                    },
                    None => {},
                }
            }
        }
        i += 1;
    }
    out
}

/// The keys of the client section that the client record takes.
pub open spec fn client_key(i: int) -> Seq<char> {
    if i == 0 {
        "회사명"@
    } else if i == 1 {
        "대표"@
    } else if i == 2 {
        "연락처"@
    } else if i == 3 {
        "팩스"@
    } else if i == 4 {
        "이메일"@
    } else if i == 5 {
        "프로젝트"@
    } else if i == 6 {
        "상태"@
    } else if i == 7 {
        "대전 사무실"@
    } else {
        "보령 사무실"@
    }
}

fn client_key_str(i: usize) -> (r: &'static str)
    requires
        i < 9,
    ensures
        r@ == client_key(i as int),
{
    if i == 0 {
        "회사명"
    } else if i == 1 {
        "대표"
    } else if i == 2 {
        "연락처"
    } else if i == 3 {
        "팩스"
    } else if i == 4 {
        "이메일"
    } else if i == 5 {
        "프로젝트"
    } else if i == 6 {
        "상태"
    } else if i == 7 {
        "대전 사무실"
    } else {
        "보령 사무실"
    }
}

/// A cell trimmed, or nothing when it is missing.
pub open spec fn trimmed_or_empty(c: Option<Seq<char>>) -> Seq<char> {
    match c {
        Some(s) => text::trim_spec(s),
        None => Seq::empty(),
    }
}

/// After the first `k` rows of the `Priority` sheet: whether the client
/// section is open, and its key/value pairs read so far. A row whose first
/// cell holds `의뢰 업체` opens the section, one that holds `출장 일정`
/// closes it; inside it, each row whose trimmed first and second cells are
/// both non-blank sets the first to the second, a later row winning.
pub open spec fn client_scan(rows: Seq<Seq<Seq<char>>>, k: int) -> (
    bool,
    Map<Seq<char>, Seq<char>>,
)
    decreases k,
{
    if k <= 0 {
        (false, Map::empty())
    } else {
        let (inside, m) = client_scan(rows, k - 1);
        let row = rows[k - 1];
        let first = first_cell(row);
        if text::contains_spec(first, "의뢰 업체"@) {
            (true, m)
        } else {
            let open = if text::contains_spec(first, "출장 일정"@) {
                false
            } else {
                inside
            };
            let key = text::trim_spec(first);
            let val = trimmed_or_empty(cell(row, 1));
            if open && key.len() > 0 && val.len() > 0 {
                (open, m.insert(key, val))
            } else {
                (open, m)
            }
        }
    }
}

/// The value the client section of the whole sheet gives `key`.
pub open spec fn client_value(rows: Seq<Seq<Seq<char>>>, key: Seq<char>) -> Option<Seq<char>> {
    let m = client_scan(rows, rows.len() as int).1;
    if m.dom().contains(key) {
        Some(m[key])
    } else {
        None
    }
}

/// The client section of the whole sheet has at least one pair.
pub open spec fn client_has_data(rows: Seq<Seq<Seq<char>>>) -> bool {
    exists|key: Seq<char>| #[trigger] client_scan(rows, rows.len() as int).1.dom().contains(key)
}

/// The text of a value, or nothing.
pub open spec fn or_empty(o: Option<Seq<char>>) -> Seq<char> {
    match o {
        Some(s) => s,
        None => Seq::empty(),
    }
}

/// The lower-case hexadecimal digit of `d`, for `0 <= d < 16`.
pub open spec fn hex_digit_lower(d: int) -> char {
    if d < 10 {
        (('0' as int) + d) as char
    } else {
        (('a' as int) + d - 10) as char
    }
}

/// How one character is written inside a JSON string: the quote, the
/// backslash and the control characters below U+0020 are escaped (the
/// backspace, tab, line feed, form feed and carriage return by a letter, the
/// rest as `u00` and two hex digits, each after a backslash); every other
/// character stands as it is.
pub open spec fn json_char_escape(c: char) -> Seq<char> {
    if c == '"' {
        seq!['\\', '"']
    } else if c == '\\' {
        seq!['\\', '\\']
    } else if c == '\u{8}' {
        seq!['\\', 'b']
    } else if c == '\t' {
        seq!['\\', 't']
    } else if c == '\n' {
        seq!['\\', 'n']
    } else if c == '\u{c}' {
        seq!['\\', 'f']
    } else if c == '\r' {
        seq!['\\', 'r']
    } else if (c as int) < 0x20 {
        seq!['\\', 'u', '0', '0', hex_digit_lower((c as int) / 16), hex_digit_lower((c as int) % 16)]
    } else {
        seq![c]
    }
}

/// The characters of `s` as they stand between the quotes of a JSON string.
pub open spec fn json_escaped(s: Seq<char>) -> Seq<char>
    decreases s.len(),
{
    if s.len() == 0 {
        Seq::empty()
    } else {
        json_char_escape(s[0]) + json_escaped(s.drop_first())
    }
}

/// `"key":"value"`, both quoted and escaped.
pub open spec fn json_member(k: Seq<char>, v: Seq<char>) -> Seq<char> {
    seq!['"'] + json_escaped(k) + seq!['"', ':', '"'] + json_escaped(v) + seq!['"']
}

/// The compact JSON text of the object `{k1: v1, k2: v2}` of two string
/// members: its members in key order, and one member (the later value) when
/// the two keys are equal.
pub open spec fn json_pair_object(k1: Seq<char>, v1: Seq<char>, k2: Seq<char>, v2: Seq<char>) -> Seq<char> {
    if k1 == k2 {
        seq!['{'] + json_member(k1, v2) + seq!['}']
    } else if str_lt(k1, k2) {
        seq!['{'] + json_member(k1, v1) + seq![','] + json_member(k2, v2) + seq!['}']
    } else {
        seq!['{'] + json_member(k2, v2) + seq![','] + json_member(k1, v1) + seq!['}']
    }
}

/// Calls `serde_json::Value::to_string` on the object `{k1: v1, k2: v2}`
/// (a `serde_json::Map` of two `Value::String` members). The map is a
/// `BTreeMap`, so its members come out in key order and a second insert under
/// an equal key replaces the first value; `Display` writes the compact form,
/// escaping strings as `json_char_escape` says.
#[verifier::external_body]
fn json_pair_text(k1: &str, v1: &str, k2: &str, v2: &str) -> (r: String)
    ensures
        r@ == json_pair_object(k1@, v1@, k2@, v2@),
{
    let mut m = serde_json::Map::new();
    m.insert(k1.to_string(), serde_json::Value::String(v1.to_string()));
    m.insert(k2.to_string(), serde_json::Value::String(v2.to_string()));
    serde_json::Value::Object(m).to_string()
}

/// The client a workbook describes.
#[derive(Debug, Clone, PartialEq)]
pub struct ClientImportRecord {
    pub company_name: Option<String>,
    pub ceo: Option<String>,
    pub phone: Option<String>,
    pub fax: Option<String>,
    pub email: Option<String>,
    pub offices: String,
    pub project_desc: Option<String>,
    pub status: Option<String>,
}

fn take_slot(slots: &Vec<Option<String>>, j: usize) -> (r: Option<String>)
    requires
        j < slots.len(),
    ensures
        text::opt_view(r) == text::opt_view(slots@[j as int]),
{
    text::clone_opt(&slots[j])
}

fn slot_text(slots: &Vec<Option<String>>, j: usize) -> (r: String)
    requires
        j < slots.len(),
    ensures
        r@ == or_empty(text::opt_view(slots@[j as int])),
{
    match &slots[j] {
        Some(s) => s.clone(),
        None => String::new(),
    }
}

/// The client record of the `Priority` sheet, if its client section holds
/// any pair. Its offices are the JSON object of the `대전 사무실` and
/// `보령 사무실` values under the keys `대전` and `보령`, blank where missing.
pub fn import_client(rows: &Vec<Vec<String>>) -> (r: Option<ClientImportRecord>)
    ensures
        r is Some <==> client_has_data(sheet_view(rows@)),
        r matches Some(c) ==> {
            let sv = sheet_view(rows@);
            &&& text::opt_view(c.company_name) == client_value(sv, "회사명"@)
            &&& text::opt_view(c.ceo) == client_value(sv, "대표"@)
            &&& text::opt_view(c.phone) == client_value(sv, "연락처"@)
            &&& text::opt_view(c.fax) == client_value(sv, "팩스"@)
            &&& text::opt_view(c.email) == client_value(sv, "이메일"@)
            &&& text::opt_view(c.project_desc) == client_value(sv, "프로젝트"@)
            &&& text::opt_view(c.status) == client_value(sv, "상태"@)
            &&& c.offices@ == json_pair_object(
                "대전"@,
                or_empty(client_value(sv, "대전 사무실"@)),
                "보령"@,
                or_empty(client_value(sv, "보령 사무실"@)),
            )
        },
{
    let ghost sv = sheet_view(rows@);
    let mut slots: Vec<Option<String>> = vec![None, None, None, None, None, None, None, None, None];
    let mut inside = false;
    let mut any = false;
    let mut i: usize = 0;
    while i < rows.len()
        invariant
            i <= rows.len(),
            sv == sheet_view(rows@),
            slots.len() == 9,
            client_scan(sv, i as int).0 == inside,
            any <==> exists|key: Seq<char>| #[trigger] client_scan(sv, i as int).1.dom().contains(
                key,
            ),
            forall|j: int|
                0 <= j < 9 ==> text::opt_view(#[trigger] slots@[j]) == (if client_scan(
                    sv,
                    i as int,
                ).1.dom().contains(client_key(j)) {
                    Some(client_scan(sv, i as int).1[client_key(j)])
                } else {
                    None
                }),
        decreases rows.len() - i,
    {
        let ghost m = client_scan(sv, i as int).1;
        let row = &rows[i];
        assert(row_view(row@) == sv[i as int]);
        let first = first_cell_of(row);
        if text::contains_str(first.as_slice(), "의뢰 업체") {
            inside = true;
            assert(client_scan(sv, i + 1).1 == m);
        } else {
            if text::contains_str(first.as_slice(), "출장 일정") {
                inside = false;
            }
            let (a, b) = text::trim_bounds(first.as_slice());
            let key = text::slice_subrange(first.as_slice(), a, b);
            let val: Vec<char> = match cell_of(row, 1) {
                Some(c) => {
                    let (c0, c1) = text::trim_bounds(c.as_slice());
                    text::slice_to_vec(text::slice_subrange(c.as_slice(), c0, c1))
                },
                None => Vec::new(),
            };
            if !(inside && a < b && val.len() > 0) {
                assert(client_scan(sv, i + 1).1 == m);
            }
            if inside && a < b && val.len() > 0 {
                let ghost m2 = m.insert(key@, val@);
                assert(m2.dom().contains(key@));
                assert(client_scan(sv, i + 1).1 == m2);
                assert(client_scan(sv, i + 1).1.dom().contains(key@));
                any = true;
                let mut j: usize = 0;
                while j < 9
                    invariant
                        j <= 9,
                        slots.len() == 9,
                        m2 == m.insert(key@, val@),
                        forall|t: int|
                            0 <= t < j ==> text::opt_view(#[trigger] slots@[t]) == (if m2.dom().contains(
                                client_key(t),
                            ) {
                                Some(m2[client_key(t)])
                            } else {
                                None
                            }),
                        forall|t: int|
                            j <= t < 9 ==> text::opt_view(#[trigger] slots@[t]) == (if m.dom().contains(
                                client_key(t),
                            ) {
                                Some(m[client_key(t)])
                            } else {
                                None
                            }),
                    decreases 9 - j,
                {
                    if text::chars_eq_str(key, client_key_str(j)) {
                        slots.set(j, Some(text::string_of(val.as_slice())));
                    }
                    j += 1;
                }
            }
        }
        i += 1;
    }
    if !any {
        return None;
    }
    let offices = json_pair_text(
        "대전",
        slot_text(&slots, 7).as_str(),
        "보령",
        slot_text(&slots, 8).as_str(),
    );
    Some(
        ClientImportRecord {
            company_name: take_slot(&slots, 0),
            ceo: take_slot(&slots, 1),
            phone: take_slot(&slots, 2),
            fax: take_slot(&slots, 3),
            email: take_slot(&slots, 4),
            offices,
            project_desc: take_slot(&slots, 5),
            status: take_slot(&slots, 6),
        },
    )
}

} // verus!
