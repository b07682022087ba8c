//! Memo rules: tag names, which fields a patch writes, defaults of a new
//! memo, memo numbers, and the tags each listed memo carries.

use vstd::prelude::*;
use crate::models::{Memo, MemoFontSize, MemoTag, font_size_of, font_size_name, lemma_font_size_round_trip};
use crate::text;

verus! {

/// A field of a patch that can be left alone, cleared, or set.
#[derive(Debug, Clone, PartialEq)]
pub enum PatchField<T> {
    Unset,
    Null,
    Value(T),
}

impl<T> PatchField<T> {
    /// The `Option<Option<T>>` shape: `None` leaves the field alone,
    /// `Some(None)` clears it, `Some(Some(v))` sets it.
    pub fn into_nullable_patch(self) -> (r: Option<Option<T>>)
        ensures
            match self {
                PatchField::Unset => r is None,
                PatchField::Null => r == Some(None::<T>),
                PatchField::Value(v) => r == Some(Some(v)),
            },
    {
        match self {
            PatchField::Unset => None,
            PatchField::Null => Some(None),
            PatchField::Value(value) => Some(Some(value)),
        }
    }
}

impl<T> Default for PatchField<T> {
    fn default() -> (r: PatchField<T>)
        ensures
            r is Unset,
    {
        PatchField::Unset
    }
}

/// Distinct patch fields give distinct patches: the three states stay apart.
pub proof fn lemma_nullable_patch_injective<T>(a: PatchField<T>, b: PatchField<T>)
    ensures
        patch_shape(a) == patch_shape(b) ==> a == b,
{
}

/// The `Option<Option<T>>` shape of a patch field.
pub open spec fn patch_shape<T>(p: PatchField<T>) -> Option<Option<T>> {
    match p {
        PatchField::Unset => None,
        PatchField::Null => Some(None),
        PatchField::Value(v) => Some(Some(v)),
    }
}

/// The tag names a memo keeps: each trimmed, empty ones dropped, and each
/// name once, where it first appears.
pub open spec fn normalized_tags_spec(names: Seq<Seq<char>>) -> Seq<Seq<char>>
    decreases names.len(),
{
    if names.len() == 0 {
        Seq::empty()
    } else {
        let prev = normalized_tags_spec(names.drop_last());
        let n = text::trim_spec(names.last());
        if n.len() == 0 || prev.contains(n) {
            prev
        } else {
            prev.push(n)
        }
    }
}

/// The tag names to link, in order.
pub fn normalized_tag_names(tag_names: &[String]) -> (r: Vec<String>)
    ensures
        text::strs_view(r@) == normalized_tags_spec(text::strs_view(tag_names@)),
{
    let ghost names = text::strs_view(tag_names@);
    let mut out: Vec<String> = Vec::new();
    let mut i: usize = 0;
    assert(names.take(0) =~= Seq::<Seq<char>>::empty());
    assert(text::strs_view(out@) =~= Seq::<Seq<char>>::empty());
    while i < tag_names.len()
        invariant
            i <= tag_names.len(),
            names == text::strs_view(tag_names@),
            text::strs_view(out@) == normalized_tags_spec(names.take(i as int)),
        decreases tag_names.len() - i,
    {
        let name = text::trim(tag_names[i].as_str());
        assert(names.take(i + 1).drop_last() =~= names.take(i as int));
        assert(names.take(i + 1).last() == tag_names@[i as int]@);
        let present = crate::projects::contains_str(&out, name.as_str());
        if name.as_str().unicode_len() != 0 && !present {
            let ghost before = text::strs_view(out@);
            out.push(name);
            assert(text::strs_view(out@) =~= before.push(text::trim_spec(tag_names@[i as int]@)));
        }
        i += 1;
    }
    assert(names.take(tag_names.len() as int) =~= names);
    out
}

/// The kept tag names hold no duplicate and no empty name, each is some
/// given name trimmed, and every given name that is not blank is kept.
pub proof fn lemma_normalized_tags(names: Seq<Seq<char>>)
    ensures
        normalized_tags_spec(names).no_duplicates(),
        forall|k: int| 0 <= k < normalized_tags_spec(names).len() ==> {
            &&& (#[trigger] normalized_tags_spec(names)[k]).len() > 0
            &&& exists|i: int| 0 <= i < names.len() && text::trim_spec(names[i]) == normalized_tags_spec(names)[k]
        },
        forall|i: int| 0 <= i < names.len() && text::trim_spec(#[trigger] names[i]).len() > 0
            ==> normalized_tags_spec(names).contains(text::trim_spec(names[i])),
    decreases names.len(),
{
    if names.len() > 0 {
        let dl = names.drop_last();
        lemma_normalized_tags(dl);
        let prev = normalized_tags_spec(dl);
        let n = text::trim_spec(names.last());
        let cur = normalized_tags_spec(names);
        assert forall|k: int| 0 <= k < cur.len() implies {
            &&& (#[trigger] cur[k]).len() > 0
            &&& exists|i: int| 0 <= i < names.len() && text::trim_spec(names[i]) == cur[k]
        } by {
            if k < prev.len() {
                let i = choose|i: int| 0 <= i < dl.len() && text::trim_spec(dl[i]) == prev[k];
                assert(names[i] == dl[i]);
            } else {
                assert(names[names.len() - 1] == names.last());
            }
        }
        assert forall|i: int| 0 <= i < names.len() && text::trim_spec(#[trigger] names[i]).len() > 0
            implies cur.contains(text::trim_spec(names[i])) by {
            if i < dl.len() {
                assert(names[i] == dl[i]);
                assert(prev.contains(text::trim_spec(dl[i])));
                let j = choose|j: int| 0 <= j < prev.len() && prev[j] == text::trim_spec(dl[i]);
                assert(cur[j] == prev[j]);
            } else {
                assert(names[i] == names.last());
                if !prev.contains(n) {
                    assert(cur[prev.len() as int] == n);
                }
            }
        }
    }
}

/// The names of the given tags.
pub open spec fn tag_names_of(tags: Seq<MemoTag>) -> Seq<Seq<char>> {
    tags.map_values(|t: MemoTag| t.name@)
}

/// The names of a memo's tags, in order.
pub fn memo_tag_names(memo: &Memo) -> (r: Vec<String>)
    ensures
        text::strs_view(r@) == tag_names_of(memo.tags@),
{
    let mut r: Vec<String> = Vec::new();
    let mut i: usize = 0;
    while i < memo.tags.len()
        invariant
            i <= memo.tags.len(),
            text::strs_view(r@) == tag_names_of(memo.tags@.take(i as int)),
        decreases memo.tags.len() - i,
    {
        let ghost before = text::strs_view(r@);
        r.push(memo.tags[i].name.clone());
        assert(memo.tags@.take(i + 1) =~= memo.tags@.take(i as int).push(memo.tags@[i as int]));
        assert(text::strs_view(r@) =~= before.push(memo.tags@[i as int].name@));
        i += 1;
        assert(text::strs_view(r@) =~= tag_names_of(memo.tags@.take(i as int)));
    }
    assert(memo.tags@.take(memo.tags.len() as int) =~= memo.tags@);
    r
}


/// A value a memo patch binds to a column. The Focus-board coordinates are
/// bound by the application layer, which holds them.
#[derive(Debug, Clone, PartialEq)]
pub enum MemoValue {
    Text(String),
    Integer(Option<i64>),
    FocusX,
    FocusY,
}

/// Kind, text and integer of a bound value: kinds 0 text, 1 integer,
/// 2 and 3 the two Focus-board coordinates.
pub open spec fn memo_value_view(v: MemoValue) -> (u8, Seq<char>, Option<i64>) {
    match v {
        MemoValue::Text(s) => (0, s@, None),
        MemoValue::Integer(i) => (1, Seq::empty(), i),
        MemoValue::FocusX => (2, Seq::empty(), None),
        MemoValue::FocusY => (3, Seq::empty(), None),
    }
}

/// The contents of `(column, value)` pairs.
pub open spec fn columns_view(v: Seq<(&'static str, MemoValue)>) -> Seq<
    (Seq<char>, (u8, Seq<char>, Option<i64>)),
> {
    v.map_values(|p: (&'static str, MemoValue)| (p.0@, memo_value_view(p.1)))
}

/// The fields a memo update may change. `None` leaves a field alone;
/// `project_id: Some(None)` detaches the memo from its project. The
/// `focus_*_set` flags say whether the patch moves the memo on the Focus
/// board; the coordinates themselves stay with the application layer.
pub struct UpdateMemo<'a> {
    pub content: Option<&'a str>,
    pub color: Option<&'a str>,
    pub project_id: Option<Option<i64>>,
    pub font_size: Option<&'a str>,
    pub is_bold: Option<bool>,
    pub focus_x_set: bool,
    pub focus_y_set: bool,
    pub tag_names: Option<Vec<String>>,
}

/// One text column when the field is given.
pub open spec fn text_column(column: Seq<char>, v: Option<&str>) -> Seq<(Seq<char>, (u8, Seq<char>, Option<i64>))> {
    match v {
        Some(x) => seq![(column, (0u8, x@, None::<i64>))],
        None => Seq::empty(),
    }
}

/// One column when `given`.
pub open spec fn flag_column(given: bool, column: Seq<char>, value: (u8, Seq<char>, Option<i64>)) -> Seq<(Seq<char>, (u8, Seq<char>, Option<i64>))> {
    if given {
        seq![(column, value)]
    } else {
        Seq::empty()
    }
}

/// The value of a boolean column.
pub open spec fn bool_int(b: bool) -> i64 {
    if b {
        1
    } else {
        0
    }
}

/// The columns before the font size: content, color, project_id.
pub open spec fn memo_head_columns(p: UpdateMemo) -> Seq<(Seq<char>, (u8, Seq<char>, Option<i64>))> {
    text_column("content"@, p.content) + text_column("color"@, p.color) + flag_column(
        p.project_id is Some,
        "project_id"@,
        (1u8, Seq::empty(), p.project_id.unwrap_or(None)),
    )
}

/// The font size column of a patch whose size is known.
pub open spec fn memo_size_column(p: UpdateMemo) -> Seq<(Seq<char>, (u8, Seq<char>, Option<i64>))> {
    match p.font_size {
        Some(f) => match font_size_of(f@) {
            Some(sz) => seq![("font_size"@, (0u8, font_size_name(sz), None::<i64>))],
            None => Seq::empty(),
        },
        None => Seq::empty(),
    }
}

/// The columns after the font size: is_bold, focus_x, focus_y.
pub open spec fn memo_tail_columns(p: UpdateMemo) -> Seq<(Seq<char>, (u8, Seq<char>, Option<i64>))> {
    flag_column(
        p.is_bold is Some,
        "is_bold"@,
        (1u8, Seq::empty(), Some(bool_int(p.is_bold.unwrap_or(false)))),
    ) + flag_column(p.focus_x_set, "focus_x"@, (2u8, Seq::empty(), None::<i64>)) + flag_column(
        p.focus_y_set,
        "focus_y"@,
        (3u8, Seq::empty(), None::<i64>),
    )
}

/// The columns a memo patch writes, in this order: content, color,
/// project_id, font_size, is_bold, focus_x, focus_y. An unknown font size
/// refuses the patch, and so does a patch that changes nothing, tags
/// included.
pub open spec fn memo_patch_spec(p: UpdateMemo) -> Result<Seq<(Seq<char>, (u8, Seq<char>, Option<i64>))>, Seq<char>> {
    if p.font_size matches Some(f) && font_size_of(f@) is None {
        Err("invalid font_size: "@ + text::str_debug(p.font_size->0@))
    } else {
        let cols = memo_head_columns(p) + memo_size_column(p) + memo_tail_columns(p);
        if cols.len() == 0 && p.tag_names is None {
            Err("no fields"@)
        } else {
            Ok(cols)
        }
    }
}

/// No column of `cols` is named `name`.
pub open spec fn no_column_named(cols: Seq<(Seq<char>, (u8, Seq<char>, Option<i64>))>, name: Seq<char>) -> bool {
    forall|i: int| 0 <= i < cols.len() ==> #[trigger] cols[i].0 != name
}

proof fn lemma_no_column_named_concat(
    a: Seq<(Seq<char>, (u8, Seq<char>, Option<i64>))>,
    b: Seq<(Seq<char>, (u8, Seq<char>, Option<i64>))>,
    name: Seq<char>,
)
    requires
        no_column_named(a, name),
        no_column_named(b, name),
    ensures
        no_column_named(a + b, name),
{
    assert forall|i: int| 0 <= i < (a + b).len() implies #[trigger] (a + b)[i].0 != name by {
        if i < a.len() {
            assert((a + b)[i] == a[i]);
        } else {
            assert((a + b)[i] == b[i - a.len()]);
        }
    }
}

/// The columns of a patch other than `is_bold` are all named otherwise.
proof fn lemma_other_columns_not_bold(p: UpdateMemo)
    ensures
        no_column_named(memo_head_columns(p) + memo_size_column(p), "is_bold"@),
        no_column_named(
            flag_column(p.focus_x_set, "focus_x"@, (2u8, Seq::empty(), None::<i64>)) + flag_column(
                p.focus_y_set,
                "focus_y"@,
                (3u8, Seq::empty(), None::<i64>),
            ),
            "is_bold"@,
        ),
{
    reveal_strlit("is_bold");
    reveal_strlit("content");
    reveal_strlit("color");
    reveal_strlit("project_id");
    reveal_strlit("font_size");
    reveal_strlit("focus_x");
    reveal_strlit("focus_y");
    let nm = "is_bold"@;
    assert("content"@ != nm) by { assert("content"@[0] != nm[0]); }
    assert("color"@ != nm) by { assert("color"@.len() != nm.len()); }
    assert("project_id"@ != nm) by { assert("project_id"@.len() != nm.len()); }
    assert("font_size"@ != nm) by { assert("font_size"@.len() != nm.len()); }
    assert("focus_x"@ != nm) by { assert("focus_x"@[0] != nm[0]); }
    assert("focus_y"@ != nm) by { assert("focus_y"@[0] != nm[0]); }
    let a = text_column("content"@, p.content);
    let b = text_column("color"@, p.color);
    let c = flag_column(p.project_id is Some, "project_id"@, (1u8, Seq::empty(), p.project_id.unwrap_or(None)));
    let z = memo_size_column(p);
    let fx = flag_column(p.focus_x_set, "focus_x"@, (2u8, Seq::empty(), None::<i64>));
    let fy = flag_column(p.focus_y_set, "focus_y"@, (3u8, Seq::empty(), None::<i64>));
    assert(no_column_named(a, nm));
    assert(no_column_named(b, nm));
    assert(no_column_named(c, nm));
    assert(no_column_named(z, nm));
    assert(no_column_named(fx, nm));
    assert(no_column_named(fy, nm));
    lemma_no_column_named_concat(a, b, nm);
    lemma_no_column_named_concat(a + b, c, nm);
    lemma_no_column_named_concat(a + b + c, z, nm);
    lemma_no_column_named_concat(fx, fy, nm);
}

/// A patch that sets the bold flag writes exactly one `is_bold` column, an
/// integer that is 1 for bold and 0 for not bold, so that reading the stored
/// value back (nonzero meaning bold) gives the flag asked for. A patch that
/// leaves the flag alone writes no `is_bold` column.
pub proof fn lemma_bold_column_reads_back(p: UpdateMemo)
    ensures
        memo_patch_spec(p) matches Ok(cols) ==> {
            &&& forall|i: int|
                0 <= i < cols.len() && #[trigger] cols[i].0 == "is_bold"@ ==> {
                    &&& p.is_bold is Some
                    &&& cols[i].1.0 == 1
                    &&& cols[i].1.2 matches Some(v) && (v == 0 || v == 1) && (v != 0) == p.is_bold->0
                }
            &&& p.is_bold is Some ==> exists|i: int|
                0 <= i < cols.len() && #[trigger] cols[i].0 == "is_bold"@
        },
{
    lemma_other_columns_not_bold(p);
    let nm = "is_bold"@;
    let front = memo_head_columns(p) + memo_size_column(p);
    let bold = flag_column(
        p.is_bold is Some,
        "is_bold"@,
        (1u8, Seq::empty(), Some(bool_int(p.is_bold.unwrap_or(false)))),
    );
    let back = flag_column(p.focus_x_set, "focus_x"@, (2u8, Seq::empty(), None::<i64>)) + flag_column(
        p.focus_y_set,
        "focus_y"@,
        (3u8, Seq::empty(), None::<i64>),
    );
    let cols = front + bold + back;
    assert(memo_head_columns(p) + memo_size_column(p) + memo_tail_columns(p) =~= cols);
    if memo_patch_spec(p) is Ok {
        assert(memo_patch_spec(p) == Ok::<Seq<(Seq<char>, (u8, Seq<char>, Option<i64>))>, Seq<char>>(cols));
        assert forall|i: int| 0 <= i < cols.len() && #[trigger] cols[i].0 == nm implies {
            &&& p.is_bold is Some
            &&& cols[i].1.0 == 1
            &&& cols[i].1.2 matches Some(v) && (v == 0 || v == 1) && (v != 0) == p.is_bold->0
        } by {
            if i < front.len() {
                assert(cols[i] == front[i]);
            } else if i < front.len() + bold.len() {
                assert(cols[i] == bold[i - front.len()]);
            } else {
                assert(cols[i] == back[i - front.len() - bold.len()]);
            }
        }
        if p.is_bold is Some {
            assert(cols[front.len() as int] == bold[0]);
            assert(cols[front.len() as int].0 == nm);
            assert(exists|i: int| 0 <= i < cols.len() && #[trigger] cols[i].0 == nm);
        }
    }
}

/// What the column at one place of a patch's columns says of the patch:
/// each column is named after a field the patch sets and carries that
/// field's value (the font size by a name that reads back as the size asked
/// for, the Focus-board coordinates by which one they are).
#[verifier::opaque]
pub open spec fn column_carries_field(p: UpdateMemo, col: (Seq<char>, (u8, Seq<char>, Option<i64>))) -> bool {
    &&& col.0 == "content"@ ==> (p.content matches Some(x) && col.1 == (0u8, x@, None::<i64>))
    &&& col.0 == "color"@ ==> (p.color matches Some(x) && col.1 == (0u8, x@, None::<i64>))
    &&& col.0 == "project_id"@ ==> (p.project_id matches Some(v) && col.1 == (1u8, Seq::<char>::empty(), v))
    &&& col.0 == "font_size"@ ==> (p.font_size matches Some(f) && col.1.0 == 0 && font_size_of(f@) is Some
        && font_size_of(col.1.1) == font_size_of(f@))
    &&& col.0 == "focus_x"@ ==> p.focus_x_set && col.1.0 == 2
    &&& col.0 == "focus_y"@ ==> p.focus_y_set && col.1.0 == 3
    &&& (col.0 == "content"@ || col.0 == "color"@ || col.0 == "project_id"@ || col.0 == "font_size"@
        || col.0 == "is_bold"@ || col.0 == "focus_x"@ || col.0 == "focus_y"@)
}

/// `cols` has a column for each field the patch sets.
pub open spec fn every_set_field_written(p: UpdateMemo, cols: Seq<(Seq<char>, (u8, Seq<char>, Option<i64>))>) -> bool {
    &&& p.content is Some ==> exists|i: int| 0 <= i < cols.len() && #[trigger] cols[i].0 == "content"@
    &&& p.color is Some ==> exists|i: int| 0 <= i < cols.len() && #[trigger] cols[i].0 == "color"@
    &&& p.project_id is Some ==> exists|i: int| 0 <= i < cols.len() && #[trigger] cols[i].0 == "project_id"@
    &&& p.font_size is Some ==> exists|i: int| 0 <= i < cols.len() && #[trigger] cols[i].0 == "font_size"@
    &&& p.is_bold is Some ==> exists|i: int| 0 <= i < cols.len() && #[trigger] cols[i].0 == "is_bold"@
    &&& p.focus_x_set ==> exists|i: int| 0 <= i < cols.len() && #[trigger] cols[i].0 == "focus_x"@
    &&& p.focus_y_set ==> exists|i: int| 0 <= i < cols.len() && #[trigger] cols[i].0 == "focus_y"@
}

/// Every column of `cols` carries the field it is named after.
pub open spec fn all_carry(p: UpdateMemo, cols: Seq<(Seq<char>, (u8, Seq<char>, Option<i64>))>) -> bool {
    forall|i: int| 0 <= i < cols.len() ==> column_carries_field(p, #[trigger] cols[i])
}

proof fn lemma_all_carry_concat(
    p: UpdateMemo,
    a: Seq<(Seq<char>, (u8, Seq<char>, Option<i64>))>,
    b: Seq<(Seq<char>, (u8, Seq<char>, Option<i64>))>,
)
    requires
        all_carry(p, a),
        all_carry(p, b),
    ensures
        all_carry(p, a + b),
{
    assert forall|i: int| 0 <= i < (a + b).len() implies column_carries_field(p, #[trigger] (a + b)[i]) by {
        if i < a.len() {
            assert((a + b)[i] == a[i]);
        } else {
            assert((a + b)[i] == b[i - a.len()]);
        }
    }
}

proof fn lemma_content_column_carries(p: UpdateMemo)
    ensures
        all_carry(p, text_column("content"@, p.content)),
{
    reveal(column_carries_field);
    reveal_strlit("content");
    reveal_strlit("color");
    assert("content"@ != "color"@) by { assert("content"@.len() != "color"@.len()); }
    reveal_strlit("project_id");
    assert("content"@ != "project_id"@) by { assert("content"@.len() != "project_id"@.len()); }
    reveal_strlit("font_size");
    assert("content"@ != "font_size"@) by { assert("content"@.len() != "font_size"@.len()); }
    reveal_strlit("is_bold");
    assert("content"@ != "is_bold"@) by { assert("content"@[0] != "is_bold"@[0]); }
    reveal_strlit("focus_x");
    assert("content"@ != "focus_x"@) by { assert("content"@[0] != "focus_x"@[0]); }
    reveal_strlit("focus_y");
    assert("content"@ != "focus_y"@) by { assert("content"@[0] != "focus_y"@[0]); }
}

proof fn lemma_color_column_carries(p: UpdateMemo)
    ensures
        all_carry(p, text_column("color"@, p.color)),
{
    reveal(column_carries_field);
    reveal_strlit("color");
    reveal_strlit("content");
    assert("color"@ != "content"@) by { assert("color"@.len() != "content"@.len()); }
    reveal_strlit("project_id");
    assert("color"@ != "project_id"@) by { assert("color"@.len() != "project_id"@.len()); }
    reveal_strlit("font_size");
    assert("color"@ != "font_size"@) by { assert("color"@.len() != "font_size"@.len()); }
    reveal_strlit("is_bold");
    assert("color"@ != "is_bold"@) by { assert("color"@.len() != "is_bold"@.len()); }
    reveal_strlit("focus_x");
    assert("color"@ != "focus_x"@) by { assert("color"@.len() != "focus_x"@.len()); }
    reveal_strlit("focus_y");
    assert("color"@ != "focus_y"@) by { assert("color"@.len() != "focus_y"@.len()); }
}

proof fn lemma_project_id_column_carries(p: UpdateMemo)
    ensures
        all_carry(p, flag_column(p.project_id is Some, "project_id"@, (1u8, Seq::empty(), p.project_id.unwrap_or(None)))),
{
    reveal(column_carries_field);
    reveal_strlit("project_id");
    reveal_strlit("content");
    assert("project_id"@ != "content"@) by { assert("project_id"@.len() != "content"@.len()); }
    reveal_strlit("color");
    assert("project_id"@ != "color"@) by { assert("project_id"@.len() != "color"@.len()); }
    reveal_strlit("font_size");
    assert("project_id"@ != "font_size"@) by { assert("project_id"@.len() != "font_size"@.len()); }
    reveal_strlit("is_bold");
    assert("project_id"@ != "is_bold"@) by { assert("project_id"@.len() != "is_bold"@.len()); }
    reveal_strlit("focus_x");
    assert("project_id"@ != "focus_x"@) by { assert("project_id"@.len() != "focus_x"@.len()); }
    reveal_strlit("focus_y");
    assert("project_id"@ != "focus_y"@) by { assert("project_id"@.len() != "focus_y"@.len()); }
}

proof fn lemma_font_size_column_carries(p: UpdateMemo)
    ensures
        all_carry(p, memo_size_column(p)),
{
    reveal(column_carries_field);
    reveal_strlit("font_size");
    reveal_strlit("content");
    assert("font_size"@ != "content"@) by { assert("font_size"@.len() != "content"@.len()); }
    reveal_strlit("color");
    assert("font_size"@ != "color"@) by { assert("font_size"@.len() != "color"@.len()); }
    reveal_strlit("project_id");
    assert("font_size"@ != "project_id"@) by { assert("font_size"@.len() != "project_id"@.len()); }
    reveal_strlit("is_bold");
    assert("font_size"@ != "is_bold"@) by { assert("font_size"@.len() != "is_bold"@.len()); }
    reveal_strlit("focus_x");
    assert("font_size"@ != "focus_x"@) by { assert("font_size"@.len() != "focus_x"@.len()); }
    reveal_strlit("focus_y");
    assert("font_size"@ != "focus_y"@) by { assert("font_size"@.len() != "focus_y"@.len()); }
    if p.font_size is Some && font_size_of(p.font_size->0@) is Some {
        lemma_font_size_round_trip(font_size_of(p.font_size->0@)->0);
    }
}

proof fn lemma_is_bold_column_carries(p: UpdateMemo)
    ensures
        all_carry(p, flag_column(
            p.is_bold is Some,
            "is_bold"@,
            (1u8, Seq::empty(), Some(bool_int(p.is_bold.unwrap_or(false)))),
        )),
{
    reveal(column_carries_field);
    reveal_strlit("is_bold");
    reveal_strlit("content");
    assert("is_bold"@ != "content"@) by { assert("is_bold"@[0] != "content"@[0]); }
    reveal_strlit("color");
    assert("is_bold"@ != "color"@) by { assert("is_bold"@.len() != "color"@.len()); }
    reveal_strlit("project_id");
    assert("is_bold"@ != "project_id"@) by { assert("is_bold"@.len() != "project_id"@.len()); }
    reveal_strlit("font_size");
    assert("is_bold"@ != "font_size"@) by { assert("is_bold"@.len() != "font_size"@.len()); }
    reveal_strlit("focus_x");
    assert("is_bold"@ != "focus_x"@) by { assert("is_bold"@[0] != "focus_x"@[0]); }
    reveal_strlit("focus_y");
    assert("is_bold"@ != "focus_y"@) by { assert("is_bold"@[0] != "focus_y"@[0]); }
}

proof fn lemma_focus_x_column_carries(p: UpdateMemo)
    ensures
        all_carry(p, flag_column(p.focus_x_set, "focus_x"@, (2u8, Seq::empty(), None::<i64>))),
{
    reveal(column_carries_field);
    reveal_strlit("focus_x");
    reveal_strlit("content");
    assert("focus_x"@ != "content"@) by { assert("focus_x"@[0] != "content"@[0]); }
    reveal_strlit("color");
    assert("focus_x"@ != "color"@) by { assert("focus_x"@.len() != "color"@.len()); }
    reveal_strlit("project_id");
    assert("focus_x"@ != "project_id"@) by { assert("focus_x"@.len() != "project_id"@.len()); }
    reveal_strlit("font_size");
    assert("focus_x"@ != "font_size"@) by { assert("focus_x"@.len() != "font_size"@.len()); }
    reveal_strlit("is_bold");
    assert("focus_x"@ != "is_bold"@) by { assert("focus_x"@[0] != "is_bold"@[0]); }
    reveal_strlit("focus_y");
    assert("focus_x"@ != "focus_y"@) by { assert("focus_x"@[6] != "focus_y"@[6]); }
}

proof fn lemma_focus_y_column_carries(p: UpdateMemo)
    ensures
        all_carry(p, flag_column(p.focus_y_set, "focus_y"@, (3u8, Seq::empty(), None::<i64>))),
{
    reveal(column_carries_field);
    reveal_strlit("focus_y");
    reveal_strlit("content");
    assert("focus_y"@ != "content"@) by { assert("focus_y"@[0] != "content"@[0]); }
    reveal_strlit("color");
    assert("focus_y"@ != "color"@) by { assert("focus_y"@.len() != "color"@.len()); }
    reveal_strlit("project_id");
    assert("focus_y"@ != "project_id"@) by { assert("focus_y"@.len() != "project_id"@.len()); }
    reveal_strlit("font_size");
    assert("focus_y"@ != "font_size"@) by { assert("focus_y"@.len() != "font_size"@.len()); }
    reveal_strlit("is_bold");
    assert("focus_y"@ != "is_bold"@) by { assert("focus_y"@[0] != "is_bold"@[0]); }
    reveal_strlit("focus_x");
    assert("focus_y"@ != "focus_x"@) by { assert("focus_y"@[6] != "focus_x"@[6]); }
}

proof fn lemma_columns_all_carry(p: UpdateMemo)
    ensures
        all_carry(p, memo_head_columns(p) + memo_size_column(p) + memo_tail_columns(p)),
{
    let x0 = text_column("content"@, p.content);
    let x1 = text_column("color"@, p.color);
    let x2 = flag_column(p.project_id is Some, "project_id"@, (1u8, Seq::empty(), p.project_id.unwrap_or(None)));
    let x3 = memo_size_column(p);
    let x4 = flag_column(
        p.is_bold is Some,
        "is_bold"@,
        (1u8, Seq::empty(), Some(bool_int(p.is_bold.unwrap_or(false)))),
    );
    let x5 = flag_column(p.focus_x_set, "focus_x"@, (2u8, Seq::empty(), None::<i64>));
    let x6 = flag_column(p.focus_y_set, "focus_y"@, (3u8, Seq::empty(), None::<i64>));
    lemma_content_column_carries(p);
    lemma_color_column_carries(p);
    lemma_project_id_column_carries(p);
    lemma_font_size_column_carries(p);
    lemma_is_bold_column_carries(p);
    lemma_focus_x_column_carries(p);
    lemma_focus_y_column_carries(p);
    lemma_all_carry_concat(p, x0, x1);
    lemma_all_carry_concat(p, x0 + x1, x2);
    lemma_all_carry_concat(p, x0 + x1 + x2, x3);
    lemma_all_carry_concat(p, x0 + x1 + x2 + x3, x4);
    lemma_all_carry_concat(p, x0 + x1 + x2 + x3 + x4, x5);
    lemma_all_carry_concat(p, x0 + x1 + x2 + x3 + x4 + x5, x6);
    assert(memo_head_columns(p) + memo_size_column(p) + memo_tail_columns(p) =~= x0 + x1 + x2 + x3 + x4 + x5 + x6);
}

proof fn lemma_columns_cover_set_fields(p: UpdateMemo)
    requires
        p.font_size matches Some(f) ==> font_size_of(f@) is Some,
    ensures
        every_set_field_written(p, memo_head_columns(p) + memo_size_column(p) + memo_tail_columns(p)),
{
    let x0 = text_column("content"@, p.content);
    let x1 = text_column("color"@, p.color);
    let x2 = flag_column(p.project_id is Some, "project_id"@, (1u8, Seq::empty(), p.project_id.unwrap_or(None)));
    let head = memo_head_columns(p);
    let size = memo_size_column(p);
    let tail = memo_tail_columns(p);
    let x4 = flag_column(
        p.is_bold is Some,
        "is_bold"@,
        (1u8, Seq::empty(), Some(bool_int(p.is_bold.unwrap_or(false)))),
    );
    let x5 = flag_column(p.focus_x_set, "focus_x"@, (2u8, Seq::empty(), None::<i64>));
    let x6 = flag_column(p.focus_y_set, "focus_y"@, (3u8, Seq::empty(), None::<i64>));
    let hs = head + size;
    let cols = hs + tail;
    assert(head == x0 + x1 + x2);
    assert(tail == x4 + x5 + x6);
    if p.content is Some {
        assert(exists|i: int| 0 <= i < cols.len() && #[trigger] cols[i].0 == "content"@) by {
            assert(x0.len() == 1 && x0[0].0 == "content"@);
            assert((x0 + x1)[0] == x0[0]);
            assert(head[0] == x0[0]);
            assert(hs[0] == head[0]);
            assert(cols[0] == hs[0]);
            assert(cols[0].0 == "content"@);
        }
    }
    if p.color is Some {
        assert(exists|i: int| 0 <= i < cols.len() && #[trigger] cols[i].0 == "color"@) by {
            let k = x0.len() as int;
            assert(x1.len() == 1 && x1[0].0 == "color"@);
            assert((x0 + x1)[k] == x1[0]);
            assert(head[k] == (x0 + x1)[k]);
            assert(hs[k] == head[k]);
            assert(cols[k] == hs[k]);
            assert(cols[k].0 == "color"@);
        }
    }
    if p.project_id is Some {
        assert(exists|i: int| 0 <= i < cols.len() && #[trigger] cols[i].0 == "project_id"@) by {
            let k = (x0.len() + x1.len()) as int;
            assert(x2.len() == 1 && x2[0].0 == "project_id"@);
            assert((x0 + x1).len() == k);
            assert(head[k] == x2[0]);
            assert(hs[k] == head[k]);
            assert(cols[k] == hs[k]);
            assert(cols[k].0 == "project_id"@);
        }
    }
    if p.font_size is Some {
        assert(exists|i: int| 0 <= i < cols.len() && #[trigger] cols[i].0 == "font_size"@) by {
            let k = head.len() as int;
            assert(size.len() == 1 && size[0].0 == "font_size"@);
            assert(hs[k] == size[0]);
            assert(cols[k] == hs[k]);
            assert(cols[k].0 == "font_size"@);
        }
    }
    if p.is_bold is Some {
        assert(exists|i: int| 0 <= i < cols.len() && #[trigger] cols[i].0 == "is_bold"@) by {
            let k = hs.len() as int;
            assert(x4.len() == 1 && x4[0].0 == "is_bold"@);
            assert((x4 + x5)[0] == x4[0]);
            assert(tail[0] == (x4 + x5)[0]);
            assert(cols[k] == tail[0]);
            assert(cols[k].0 == "is_bold"@);
        }
    }
    if p.focus_x_set {
        assert(exists|i: int| 0 <= i < cols.len() && #[trigger] cols[i].0 == "focus_x"@) by {
            let j = x4.len() as int;
            let k = hs.len() + j;
            assert(x5.len() == 1 && x5[0].0 == "focus_x"@);
            assert((x4 + x5)[j] == x5[0]);
            assert(tail[j] == (x4 + x5)[j]);
            assert(cols[k] == tail[j]);
            assert(cols[k].0 == "focus_x"@);
        }
    }
    if p.focus_y_set {
        assert(exists|i: int| 0 <= i < cols.len() && #[trigger] cols[i].0 == "focus_y"@) by {
            let j = (x4.len() + x5.len()) as int;
            let k = hs.len() + j;
            assert(x6.len() == 1 && x6[0].0 == "focus_y"@);
            assert((x4 + x5).len() == j);
            assert(tail[j] == x6[0]);
            assert(cols[k] == tail[j]);
            assert(cols[k].0 == "focus_y"@);
        }
    }
}

/// Every column a patch writes carries the field it is named after, and
/// every field the patch sets has its column: a patch never writes one
/// field's value under another field's name.
pub proof fn lemma_patch_columns_carry_their_fields(p: UpdateMemo)
    ensures
        memo_patch_spec(p) matches Ok(cols) ==> (all_carry(p, cols) && every_set_field_written(p, cols)),
{
    lemma_columns_all_carry(p);
    if memo_patch_spec(p) is Ok {
        assert(p.font_size matches Some(f) ==> font_size_of(f@) is Some);
        lemma_columns_cover_set_fields(p);
    }
}

fn push_col(out: &mut Vec<(&'static str, MemoValue)>, column: &'static str, v: MemoValue)
    ensures
        columns_view(final(out)@) == columns_view(old(out)@).push((column@, memo_value_view(v))),
{
    let ghost before = columns_view(out@);
    out.push((column, v));
    assert(columns_view(out@) =~= before.push((column@, memo_value_view(v))));
}

fn memo_head(patch: &UpdateMemo, out: &mut Vec<(&'static str, MemoValue)>)
    ensures
        columns_view(final(out)@) == columns_view(old(out)@) + memo_head_columns(*patch),
{
    let ghost start = columns_view(out@);
    if let Some(v) = patch.content {
        push_col(out, "content", MemoValue::Text(String::from_str(v)));
    }
    assert(columns_view(out@) =~= start + text_column("content"@, patch.content));
    if let Some(v) = patch.color {
        push_col(out, "color", MemoValue::Text(String::from_str(v)));
    }
    assert(columns_view(out@) =~= start + text_column("content"@, patch.content) + text_column("color"@, patch.color));
    if let Some(pid) = patch.project_id {
        push_col(out, "project_id", MemoValue::Integer(pid));
    }
    assert(columns_view(out@) =~= start + memo_head_columns(*patch));
}

fn memo_tail(patch: &UpdateMemo, out: &mut Vec<(&'static str, MemoValue)>)
    ensures
        columns_view(final(out)@) == columns_view(old(out)@) + memo_tail_columns(*patch),
{
    let ghost start = columns_view(out@);
    if let Some(b) = patch.is_bold {
        let n: i64 = if b { 1 } else { 0 };
        push_col(out, "is_bold", MemoValue::Integer(Some(n)));
    }
    let ghost a = flag_column(patch.is_bold is Some, "is_bold"@, (1u8, Seq::empty(), Some(bool_int(patch.is_bold.unwrap_or(false)))));
    assert(columns_view(out@) =~= start + a);
    if patch.focus_x_set {
        push_col(out, "focus_x", MemoValue::FocusX);
    }
    let ghost b = flag_column(patch.focus_x_set, "focus_x"@, (2u8, Seq::empty(), None::<i64>));
    assert(columns_view(out@) =~= start + a + b);
    if patch.focus_y_set {
        push_col(out, "focus_y", MemoValue::FocusY);
    }
    assert(columns_view(out@) =~= start + memo_tail_columns(*patch));
}

/// The columns a memo patch writes (see `memo_patch_spec`).
pub fn memo_patch_columns(patch: &UpdateMemo) -> (r: Result<Vec<(&'static str, MemoValue)>, String>)
    ensures
        match memo_patch_spec(*patch) {
            Ok(cols) => r matches Ok(v) && columns_view(v@) == cols,
            Err(e) => r matches Err(m) && m@ == e,
        },
{
    let mut out: Vec<(&'static str, MemoValue)> = Vec::new();
    assert(columns_view(out@) =~= Seq::empty());
    memo_head(patch, &mut out);
    assert(columns_view(out@) =~= memo_head_columns(*patch));
    if let Some(v) = patch.font_size {
        let size = MemoFontSize::parse(v)?;
        push_col(&mut out, "font_size", MemoValue::Text(String::from_str(size.as_str())));
    }
    assert(columns_view(out@) =~= memo_head_columns(*patch) + memo_size_column(*patch));
    memo_tail(patch, &mut out);
    assert(columns_view(out@) =~= memo_head_columns(*patch) + memo_size_column(*patch) + memo_tail_columns(*patch));
    if out.len() == 0 && patch.tag_names.is_none() {
        return Err(String::from_str("no fields"));
    }
    Ok(out)
}


/// Color of a memo created without one.
pub const DEFAULT_MEMO_COLOR: &'static str = "yellow";

/// Color of a memo tag created without one.
pub const DEFAULT_TAG_COLOR: &'static str = "#6b7280";

/// The fields of a new memo. Its Focus-board position, if any, is kept by
/// the application layer.
pub struct NewMemo<'a> {
    pub content: &'a str,
    pub color: &'a str,
    pub project_id: Option<i64>,
    pub font_size: Option<&'a str>,
    pub is_bold: Option<bool>,
    pub tag_names: Vec<String>,
}

/// What a new memo is stored with besides its given fields.
#[derive(Debug, Clone, PartialEq)]
pub struct NewMemoStyle {
    pub font_size: MemoFontSize,
    pub is_bold: bool,
    pub tags: Vec<String>,
}

/// The style of a new memo: the given font size (normal when none, an
/// unknown one refused), bold only when asked, and its tag names normalized.
pub fn new_memo_style(input: &NewMemo) -> (r: Result<NewMemoStyle, String>)
    ensures
        match input.font_size {
            Some(f) if font_size_of(f@) is None => r matches Err(e) && e@ == "invalid font_size: "@
                + text::str_debug(f@),
            _ => r matches Ok(st) && st.font_size == (match input.font_size {
                Some(f) => font_size_of(f@)->0,
                None => MemoFontSize::Normal,
            }) && st.is_bold == input.is_bold.unwrap_or(false) && text::strs_view(st.tags@)
                == normalized_tags_spec(text::strs_view(input.tag_names@)),
        },
{
    let font_size = match input.font_size {
        Some(v) => MemoFontSize::parse(v)?,
        None => MemoFontSize::default_size(),
    };
    let is_bold = match input.is_bold {
        Some(b) => b,
        None => false,
    };
    let tags = normalized_tag_names(input.tag_names.as_slice());
    Ok(NewMemoStyle { font_size, is_bold, tags })
}

/// The message for a memo number that names no memo.
pub open spec fn memo_number_message(number: i64) -> Seq<char> {
    seq!['#'] + text::int_decimal(number as int) + " 메모를 찾을 수 없음"@
}

/// Memo numbers start at 1; a smaller number names no memo.
pub fn check_memo_number(number: i64) -> (r: Result<(), String>)
    ensures
        number >= 1 ==> r is Ok,
        number < 1 ==> (r matches Err(e) && e@ == memo_number_message(number)),
{
    if number < 1 {
        let mut e = String::new();
        e.push('#');
        let d = text::i64_to_string(number);
        e.append(d.as_str());
        e.append(" 메모를 찾을 수 없음");
        assert(e@ =~= memo_number_message(number));
        Err(e)
    } else {
        Ok(())
    }
}

/// The row offset of memo number `number` in sort order: number 1 is the
/// first memo; numbers below 1 also pick the first.
pub fn number_offset(number: i64) -> (r: i64)
    requires
        number > i64::MIN,
    ensures
        r == if number - 1 > 0 { number - 1 } else { 0 },
{
    let n = number - 1;
    if n > 0 {
        n
    } else {
        0
    }
}

/// A new memo tag's name (trimmed, not empty) and color (the default when
/// none is given).
pub fn prepare_memo_tag(name: &str, color: Option<&str>) -> (r: Result<(String, String), String>)
    ensures
        text::trim_spec(name@).len() == 0 ==> (r matches Err(e) && e@ == "memo tag name cannot be empty"@),
        text::trim_spec(name@).len() > 0 ==> (r matches Ok(p) && p.0@ == text::trim_spec(name@) && p.1@ == match color {
            Some(c) => c@,
            None => DEFAULT_TAG_COLOR@,
        }),
{
    let trimmed = text::trim(name);
    if trimmed.as_str().unicode_len() == 0 {
        return Err(String::from_str("memo tag name cannot be empty"));
    }
    let c = match color {
        Some(c) => String::from_str(c),
        None => String::from_str(DEFAULT_TAG_COLOR),
    };
    Ok((trimmed, c))
}

/// The fields a memo tag update may change.
pub struct UpdateMemoTag<'a> {
    pub name: Option<&'a str>,
    pub color: Option<&'a str>,
    pub sort_order: Option<i64>,
}

/// The columns a memo tag patch writes: name (trimmed, not empty), color,
/// sort_order, in this order; a patch that changes nothing is refused.
pub open spec fn memo_tag_patch_spec(p: UpdateMemoTag) -> Result<Seq<(Seq<char>, (u8, Seq<char>, Option<i64>))>, Seq<char>> {
    if p.name matches Some(n) && text::trim_spec(n@).len() == 0 {
        Err("memo tag name cannot be empty"@)
    } else {
        let cols = (match p.name {
            Some(n) => seq![("name"@, (0u8, text::trim_spec(n@), None::<i64>))],
            None => Seq::empty(),
        }) + text_column("color"@, p.color) + flag_column(
            p.sort_order is Some,
            "sort_order"@,
            (1u8, Seq::empty(), p.sort_order),
        );
        if cols.len() == 0 {
            Err("no fields"@)
        } else {
            Ok(cols)
        }
    }
}

/// The columns a memo tag patch writes (see `memo_tag_patch_spec`).
pub fn memo_tag_patch_columns(patch: &UpdateMemoTag) -> (r: Result<Vec<(&'static str, MemoValue)>, String>)
    ensures
        match memo_tag_patch_spec(*patch) {
            Ok(cols) => r matches Ok(v) && columns_view(v@) == cols,
            Err(e) => r matches Err(m) && m@ == e,
        },
{
    let mut out: Vec<(&'static str, MemoValue)> = Vec::new();
    assert(columns_view(out@) =~= Seq::empty());
    if let Some(name) = patch.name {
        let trimmed = text::trim(name);
        if trimmed.as_str().unicode_len() == 0 {
            return Err(String::from_str("memo tag name cannot be empty"));
        }
        push_col(&mut out, "name", MemoValue::Text(trimmed));
    }
    if let Some(c) = patch.color {
        push_col(&mut out, "color", MemoValue::Text(String::from_str(c)));
    }
    if let Some(o) = patch.sort_order {
        push_col(&mut out, "sort_order", MemoValue::Integer(Some(o)));
    }
    assert(columns_view(out@) =~= (match patch.name {
        Some(n) => seq![("name"@, (0u8, text::trim_spec(n@), None::<i64>))],
        None => Seq::empty(),
    }) + text_column("color"@, patch.color) + flag_column(
        patch.sort_order is Some,
        "sort_order"@,
        (1u8, Seq::empty(), patch.sort_order),
    ));
    if out.len() == 0 {
        return Err(String::from_str("no fields"));
    }
    Ok(out)
}


/// The tags of `rows` that belong to memo `id`, in row order.
pub open spec fn tags_for(rows: Seq<(i64, MemoTag)>, id: i64) -> Seq<MemoTag>
    decreases rows.len(),
{
    if rows.len() == 0 {
        Seq::empty()
    } else {
        let prev = tags_for(rows.drop_last(), id);
        if rows.last().0 == id {
            prev.push(rows.last().1)
        } else {
            prev
        }
    }
}

/// No memo before position `k` has the id of memo `k`.
pub open spec fn first_with_id(memos: Seq<Memo>, k: int) -> bool {
    forall|j: int| 0 <= j < k ==> #[trigger] memos[j].id != memos[k].id
}

/// `a` and `b` agree on every field but the tags.
pub open spec fn same_but_tags(a: Memo, b: Memo) -> bool {
    &&& a.id == b.id
    &&& a.content == b.content
    &&& a.color == b.color
    &&& a.project_id == b.project_id
    &&& a.sort_order == b.sort_order
    &&& a.font_size == b.font_size
    &&& a.is_bold == b.is_bold
    &&& a.created_at == b.created_at
    &&& a.updated_at == b.updated_at
}

/// The tags listed memo `k` carries.
pub open spec fn attached_tags(memos: Seq<Memo>, rows: Seq<(i64, MemoTag)>, k: int) -> Seq<MemoTag> {
    if first_with_id(memos, k) {
        tags_for(rows, memos[k].id)
    } else {
        Seq::empty()
    }
}

fn collect_tags(rows: &Vec<(i64, MemoTag)>, id: i64) -> (r: Vec<MemoTag>)
    ensures
        r@ == tags_for(rows@, id),
{
    let mut r: Vec<MemoTag> = Vec::new();
    let mut i: usize = 0;
    assert(rows@.take(0) =~= Seq::<(i64, MemoTag)>::empty());
    while i < rows.len()
        invariant
            i <= rows.len(),
            r@ == tags_for(rows@.take(i as int), id),
        decreases rows.len() - i,
    {
        assert(rows@.take(i + 1).drop_last() =~= rows@.take(i as int));
        if rows[i].0 == id {
            r.push(rows[i].1.duplicate());
        }
        i += 1;
    }
    assert(rows@.take(rows.len() as int) =~= rows@);
    r
}

/// The listed memos with their tags: `rows` pairs a memo id with one of its
/// tags, and each memo gets the tags of its id in row order (a repeated id
/// gets them at its first place only).
pub fn attach_tags(memos: Vec<Memo>, rows: &Vec<(i64, MemoTag)>) -> (r: Vec<Memo>)
    ensures
        r@.len() == memos@.len(),
        forall|k: int| 0 <= k < memos@.len() ==> same_but_tags(#[trigger] r@[k], memos@[k])
            && r@[k].tags@ == attached_tags(memos@, rows@, k),
{
    let ghost ms = memos@;
    let mut ids: Vec<i64> = Vec::new();
    let mut r: Vec<Memo> = Vec::new();
    for m in it: memos.into_iter()
        invariant
            it.seq() == ms,
            r@.len() == it.index(),
            ids@.len() == it.index(),
            forall|j: int| 0 <= j < it.index() ==> #[trigger] ids@[j] == ms[j].id,
            forall|k: int| 0 <= k < it.index() ==> same_but_tags(#[trigger] r@[k], ms[k])
                && r@[k].tags@ == attached_tags(ms, rows@, k),
    {
        let k = ids.len();
        let mut seen = false;
        let mut j: usize = 0;
        while j < k
            invariant
                j <= k == ids@.len(),
                seen == exists|q: int| 0 <= q < j && ids@[q] == m.id,
            decreases k - j,
        {
            if ids[j] == m.id {
                seen = true;
            }
            j += 1;
        }
        assert(m == ms[k as int]);
        assert(seen == !first_with_id(ms, k as int)) by {
            if seen {
                let q = choose|q: int| 0 <= q < k && ids@[q] == m.id;
                assert(ms[q].id == ms[k as int].id);
            } else {
                assert forall|q: int| 0 <= q < k implies #[trigger] ms[q].id != ms[k as int].id by {
                    assert(ids@[q] == ms[q].id);
                }
            }
        }
        let tags = if seen {
            Vec::new()
        } else {
            collect_tags(rows, m.id)
        };
        let id = m.id;
        r.push(Memo { tags, ..m });
        ids.push(id);
    }
    r
}

/// A memo edit addressed by the memo's number: only its text.
#[derive(Debug, Clone, PartialEq)]
pub struct UpdateMemoByNumberInput {
    pub content: Option<String>,
}

/// The text a numbered memo gets: the number must name a memo and the
/// edit must carry text; the store's own failure to find the memo is
/// reported with the same message as a bad number.
pub fn update_by_number_content(number: i64, input: UpdateMemoByNumberInput) -> (r: Result<
    String,
    String,
>)
    ensures
        number < 1 ==> (r matches Err(e) && e@ == memo_number_message(number)),
        number >= 1 && input.content is None ==> (r matches Err(e) && e@
            == "content is required for update_by_number"@),
        number >= 1 && input.content is Some ==> r == Ok::<String, String>(input.content->0),
{
    check_memo_number(number)?;
    match input.content {
        Some(c) => Ok(c),
        None => Err(String::from_str("content is required for update_by_number")),
    }
}

/// A new memo tag as the interface sends it.
#[derive(Debug, Clone, PartialEq)]
pub struct MemoTagInput {
    pub name: String,
    pub color: Option<String>,
}

/// Changed memo tag fields as the interface sends them.
#[derive(Debug, Clone, PartialEq)]
pub struct UpdateMemoTagInput {
    pub name: Option<String>,
    pub color: Option<String>,
    pub sort_order: Option<i64>,
}

impl UpdateMemoTagInput {
    /// The same change as the store's patch.
    pub fn as_patch(&self) -> (r: UpdateMemoTag<'_>)
        ensures
            match self.name {
                Some(n) => r.name matches Some(x) && x@ == n@,
                None => r.name is None,
            },
            match self.color {
                Some(c) => r.color matches Some(x) && x@ == c@,
                None => r.color is None,
            },
            r.sort_order == self.sort_order,
    {
        UpdateMemoTag {
            name: text::opt_as_str(&self.name),
            color: text::opt_as_str(&self.color),
            sort_order: self.sort_order,
        }
    }
}

} // verus!
