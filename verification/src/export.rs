//! Merging a workspace dump into a database: what each item of the dump
//! becomes, and the report of the merge. The store layer asks whether an
//! item is already there and writes it; these are the decisions between.

use vstd::prelude::*;

verus! {

/// The kinds of items a dump carries, in the order they are merged.
#[derive(Debug, Clone, Copy, PartialEq, Eq, Structural)]
pub enum ItemKind {
    Category,
    Project,
    Memo,
    Schedule,
}

/// What happened to the items of a dump.
#[derive(Debug, Clone, PartialEq, Eq, Structural)]
pub struct ImportReport {
    pub inserted_projects: usize,
    pub inserted_memos: usize,
    pub inserted_schedules: usize,
    pub inserted_categories: usize,
    pub skipped_duplicates: usize,
    pub dry_run: bool,
}

/// What to do with one item of the dump.
#[derive(Debug, Clone, Copy, PartialEq, Eq, Structural)]
pub enum MergeAction {
    /// An item that matches it is already there.
    Skip,
    /// Insert it, writing it only when `write` holds (not in a dry run).
    Insert { write: bool },
}

impl ImportReport {
    /// Every count of the report, added up.
    pub open spec fn total(self) -> int {
        self.inserted_projects + self.inserted_memos + self.inserted_schedules
            + self.inserted_categories + self.skipped_duplicates
    }

    /// The count an inserted item of `kind` adds to.
    pub open spec fn inserted(self, kind: ItemKind) -> int {
        match kind {
            ItemKind::Category => self.inserted_categories as int,
            ItemKind::Project => self.inserted_projects as int,
            ItemKind::Memo => self.inserted_memos as int,
            ItemKind::Schedule => self.inserted_schedules as int,
        }
    }

    /// The report of a merge that has looked at nothing yet.
    pub fn new(dry_run: bool) -> (r: ImportReport)
        ensures
            r.total() == 0,
            r.inserted_projects == 0,
            r.inserted_memos == 0,
            r.inserted_schedules == 0,
            r.inserted_categories == 0,
            r.skipped_duplicates == 0,
            r.dry_run == dry_run,
    {
        ImportReport {
            inserted_projects: 0,
            inserted_memos: 0,
            inserted_schedules: 0,
            inserted_categories: 0,
            skipped_duplicates: 0,
            dry_run,
        }
    }

    /// Records an item of `kind` of which `existing` matching items are in
    /// the database: it is a duplicate when there is at least one, and is
    /// inserted otherwise; a dry run writes nothing.
    pub fn record(&mut self, kind: ItemKind, existing: i64) -> (r: MergeAction)
        requires
            old(self).total() < usize::MAX,
        ensures
            final(self).dry_run == old(self).dry_run,
            final(self).total() == old(self).total() + 1,
            existing > 0 ==> r == MergeAction::Skip,
            existing > 0 ==> counted_duplicate(*old(self), *final(self)),
            existing <= 0 ==> r == (MergeAction::Insert { write: !old(self).dry_run }),
            existing <= 0 ==> counted_insert(*old(self), *final(self), kind),
    {
        if existing > 0 {
            self.skipped_duplicates = self.skipped_duplicates + 1;
            return MergeAction::Skip;
        }
        match kind {
            ItemKind::Category => {
                self.inserted_categories = self.inserted_categories + 1;
            },
            ItemKind::Project => {
                self.inserted_projects = self.inserted_projects + 1;
            },
            ItemKind::Memo => {
                self.inserted_memos = self.inserted_memos + 1;
            },
            ItemKind::Schedule => {
                self.inserted_schedules = self.inserted_schedules + 1;
            },
        }
        MergeAction::Insert { write: !self.dry_run }
    }

    /// Whether the merge keeps what it wrote: a dry run rolls back.
    pub fn commits(&self) -> (r: bool)
        ensures
            r == !self.dry_run,
    {
        !self.dry_run
    }
}

/// The query counting the rows that an item of `kind` matches, its match
/// key bound in order: a category by name; a project by name and priority;
/// a memo by content and colour; a schedule by date, time and description,
/// where a missing time or description matches a missing or empty one.
pub open spec fn match_query_spec(kind: ItemKind) -> Seq<char> {
    match kind {
        ItemKind::Category => "SELECT COUNT(*) FROM categories WHERE name = ?1"@,
        ItemKind::Project => "SELECT COUNT(*) FROM projects WHERE name = ?1 AND priority = ?2"@,
        ItemKind::Memo => "SELECT COUNT(*) FROM memos WHERE content = ?1 AND color = ?2"@,
        ItemKind::Schedule => "SELECT COUNT(*) FROM schedules WHERE date = ?1 AND COALESCE(time,'') = COALESCE(?2,'') AND COALESCE(description,'') = COALESCE(?3,'')"@,
    }
}

/// `column = ?n`: the column equals the `n`-th bound value.
pub open spec fn equals_param(column: Seq<char>, n: char) -> Seq<char> {
    column + " = ?"@ + seq![n]
}

/// `COALESCE(column,'') = COALESCE(?n,'')`: the column equals the `n`-th
/// bound value, a missing value on either side counting as empty.
pub open spec fn equals_param_or_empty(column: Seq<char>, n: char) -> Seq<char> {
    "COALESCE("@ + column + ",'') = COALESCE(?"@ + seq![n] + ",'')"@
}

/// The conditions joined by `AND`: a row has to meet every one of them.
pub open spec fn all_of(conditions: Seq<Seq<char>>) -> Seq<char>
    decreases conditions.len(),
{
    if conditions.len() <= 1 {
        if conditions.len() == 0 {
            Seq::empty()
        } else {
            conditions[0]
        }
    } else {
        all_of(conditions.drop_last()) + " AND "@ + conditions.last()
    }
}

/// The query counting the rows of `table` that meet every condition.
pub open spec fn count_rows_meeting_all(table: Seq<char>, conditions: Seq<Seq<char>>) -> Seq<char> {
    "SELECT COUNT(*) FROM "@ + table + " WHERE "@ + all_of(conditions)
}

/// An item counts as already there only when a row agrees with it on every
/// part of its match key, bound in order: a category on its name; a project
/// on its name and its priority; a memo on its content and its colour; a
/// schedule on its date, its time and its description (a missing time or
/// description agreeing with a missing or empty one).
pub proof fn lemma_match_needs_every_key_part()
    ensures
        match_query_spec(ItemKind::Category) == count_rows_meeting_all(
            "categories"@,
            seq![equals_param("name"@, '1')],
        ),
        match_query_spec(ItemKind::Project) == count_rows_meeting_all(
            "projects"@,
            seq![equals_param("name"@, '1'), equals_param("priority"@, '2')],
        ),
        match_query_spec(ItemKind::Memo) == count_rows_meeting_all(
            "memos"@,
            seq![equals_param("content"@, '1'), equals_param("color"@, '2')],
        ),
        match_query_spec(ItemKind::Schedule) == count_rows_meeting_all(
            "schedules"@,
            seq![
                equals_param("date"@, '1'),
                equals_param_or_empty("time"@, '2'),
                equals_param_or_empty("description"@, '3'),
            ],
        ),
{
    reveal_strlit("SELECT COUNT(*) FROM categories WHERE name = ?1");
    reveal_strlit("SELECT COUNT(*) FROM projects WHERE name = ?1 AND priority = ?2");
    reveal_strlit("SELECT COUNT(*) FROM memos WHERE content = ?1 AND color = ?2");
    reveal_strlit("SELECT COUNT(*) FROM schedules WHERE date = ?1 AND COALESCE(time,'') = COALESCE(?2,'') AND COALESCE(description,'') = COALESCE(?3,'')");
    reveal_strlit("SELECT COUNT(*) FROM ");
    reveal_strlit(" WHERE ");
    reveal_strlit(" AND ");
    reveal_strlit(" = ?");
    reveal_strlit("COALESCE(");
    reveal_strlit(",'') = COALESCE(?");
    reveal_strlit(",'')");
    reveal_strlit("categories");
    reveal_strlit("projects");
    reveal_strlit("memos");
    reveal_strlit("schedules");
    reveal_strlit("name");
    reveal_strlit("priority");
    reveal_strlit("content");
    reveal_strlit("color");
    reveal_strlit("date");
    reveal_strlit("time");
    reveal_strlit("description");
    let c1 = seq![equals_param("name"@, '1')];
    assert(all_of(c1) == c1[0]);
    assert(match_query_spec(ItemKind::Category) =~= count_rows_meeting_all("categories"@, c1));
    let c2 = seq![equals_param("name"@, '1'), equals_param("priority"@, '2')];
    assert(c2.drop_last() =~= seq![c2[0]]);
    assert(all_of(c2.drop_last()) == c2[0]);
    assert(match_query_spec(ItemKind::Project) =~= count_rows_meeting_all("projects"@, c2));
    let c3 = seq![equals_param("content"@, '1'), equals_param("color"@, '2')];
    assert(c3.drop_last() =~= seq![c3[0]]);
    assert(all_of(c3.drop_last()) == c3[0]);
    assert(match_query_spec(ItemKind::Memo) =~= count_rows_meeting_all("memos"@, c3));
    let c4 = seq![
        equals_param("date"@, '1'),
        equals_param_or_empty("time"@, '2'),
        equals_param_or_empty("description"@, '3'),
    ];
    assert(c4.drop_last() =~= seq![c4[0], c4[1]]);
    assert(c4.drop_last().drop_last() =~= seq![c4[0]]);
    assert(all_of(c4.drop_last().drop_last()) == c4[0]);
    assert(all_of(c4.drop_last()) == c4[0] + " AND "@ + c4[1]);
    assert(match_query_spec(ItemKind::Schedule) =~= count_rows_meeting_all("schedules"@, c4));
}

/// The query that finds the matches of an item (see `match_query_spec`).
pub fn match_query(kind: ItemKind) -> (r: &'static str)
    ensures
        r@ == match_query_spec(kind),
{
    match kind {
        ItemKind::Category => "SELECT COUNT(*) FROM categories WHERE name = ?1",
        ItemKind::Project => "SELECT COUNT(*) FROM projects WHERE name = ?1 AND priority = ?2",
        ItemKind::Memo => "SELECT COUNT(*) FROM memos WHERE content = ?1 AND color = ?2",
        ItemKind::Schedule => "SELECT COUNT(*) FROM schedules WHERE date = ?1 AND COALESCE(time,'') = COALESCE(?2,'') AND COALESCE(description,'') = COALESCE(?3,'')",
    }
}

/// The colour a dumped category without one is given.
pub const FALLBACK_CATEGORY_COLOR: &'static str = "#6b7280";

/// A category as a dump holds it: each field is there only when it has the
/// right type.
#[derive(Debug, Clone, PartialEq)]
pub struct DumpedCategory {
    pub name: Option<String>,
    pub color: Option<String>,
    pub sort_order: Option<i64>,
}

/// The name, colour and sort order a dumped category is matched and
/// inserted with: a missing name is empty, a missing colour is
/// `#6b7280`, a missing sort order is 0.
pub fn category_values(c: &DumpedCategory) -> (r: (String, String, i64))
    ensures
        r.0@ == match c.name {
            Some(n) => n@,
            None => Seq::<char>::empty(),
        },
        r.1@ == match c.color {
            Some(k) => k@,
            None => FALLBACK_CATEGORY_COLOR@,
        },
        r.2 == match c.sort_order {
            Some(o) => o,
            None => 0,
        },
{
    let name = match &c.name {
        Some(n) => n.clone(),
        None => String::new(),
    };
    let color = match &c.color {
        Some(k) => k.clone(),
        None => String::from_str(FALLBACK_CATEGORY_COLOR),
    };
    let sort_order = match c.sort_order {
        Some(o) => o,
        None => 0,
    };
    (name, color, sort_order)
}

/// `b` is `a` with one more duplicate.
pub open spec fn counted_duplicate(a: ImportReport, b: ImportReport) -> bool {
    &&& b.skipped_duplicates == a.skipped_duplicates + 1
    &&& forall|k: ItemKind| #[trigger] b.inserted(k) == a.inserted(k)
}

/// `b` is `a` with one more inserted item of `kind`.
pub open spec fn counted_insert(a: ImportReport, b: ImportReport, kind: ItemKind) -> bool {
    &&& b.skipped_duplicates == a.skipped_duplicates
    &&& b.inserted(kind) == a.inserted(kind) + 1
    &&& forall|k: ItemKind| k != kind ==> #[trigger] b.inserted(k) == a.inserted(k)
}

/// What merging each item gives: `kinds` and `existing` pair each item
/// with its kind and the number of matching items already there.
pub open spec fn merged(kinds: Seq<ItemKind>, existing: Seq<i64>, kind: ItemKind) -> int
    decreases kinds.len(),
{
    if kinds.len() == 0 || existing.len() == 0 {
        0
    } else {
        merged(kinds.drop_last(), existing.drop_last(), kind) + if kinds.last() == kind
            && existing.last() <= 0 {
            1int
        } else {
            0int
        }
    }
}

/// The number of items that had a match already.
pub open spec fn duplicates(existing: Seq<i64>) -> int
    decreases existing.len(),
{
    if existing.len() == 0 {
        0
    } else {
        duplicates(existing.drop_last()) + if existing.last() > 0 {
            1int
        } else {
            0int
        }
    }
}

/// Recording a sequence of items, from a fresh report, counts each item
/// once: as inserted for its kind when nothing matched it, and as a
/// duplicate otherwise; every item is counted, whether or not the merge is
/// a dry run.
pub proof fn lemma_report_counts_every_item(
    kinds: Seq<ItemKind>,
    existing: Seq<i64>,
    reports: Seq<ImportReport>,
)
    requires
        recorded_in_turn(kinds, existing, reports),
    ensures
        reports.last().total() == kinds.len(),
        reports.last().skipped_duplicates == duplicates(existing),
        forall|k: ItemKind| #[trigger] reports.last().inserted(k) == merged(kinds, existing, k),
    decreases kinds.len(),
{
    if kinds.len() > 0 {
        let n = kinds.len() as int;
        lemma_report_counts_every_item(
            kinds.drop_last(),
            existing.drop_last(),
            reports.drop_last(),
        );
        let a = reports[n - 1];
        let b = reports[n];
        assert(reports.drop_last().last() == a);
        assert(kinds.drop_last().len() == n - 1);
        assert forall|i: int| 0 <= i < n - 1 implies (#[trigger] reports.drop_last()[i + 1]).total()
            == reports.drop_last()[i].total() + 1 by {
            assert(reports.drop_last()[i + 1] == reports[i + 1]);
        }
        assert forall|k: ItemKind| #[trigger] b.inserted(k) == merged(kinds, existing, k) by {
            assert(merged(kinds.drop_last(), existing.drop_last(), k) == a.inserted(k));
            if existing[n - 1] > 0 {
                assert(counted_duplicate(a, b));
            } else {
                assert(counted_insert(a, b, kinds[n - 1]));
            }
        }
        if existing[n - 1] > 0 {
            assert(counted_duplicate(a, b));
        } else {
            assert(counted_insert(a, b, kinds[n - 1]));
        }
    }
}

/// `reports` is a fresh report followed by the report after each item was
/// recorded in turn: item `i` of kind `kinds[i]`, with `existing[i]`
/// matching items already there.
pub open spec fn recorded_in_turn(
    kinds: Seq<ItemKind>,
    existing: Seq<i64>,
    reports: Seq<ImportReport>,
) -> bool {
    &&& kinds.len() == existing.len()
    &&& reports.len() == kinds.len() + 1
    &&& reports[0].total() == 0
    &&& reports[0].skipped_duplicates == 0
    &&& forall|k: ItemKind| #[trigger] reports[0].inserted(k) == 0
    &&& forall|i: int|
        0 <= i < kinds.len() ==> (#[trigger] reports[i + 1]).total() == reports[i].total() + 1
    &&& forall|i: int|
        0 <= i < kinds.len() && existing[i] > 0 ==> counted_duplicate(
            reports[i],
            #[trigger] reports[i + 1],
        )
    &&& forall|i: int|
        0 <= i < kinds.len() && existing[i] <= 0 ==> counted_insert(
            reports[i],
            #[trigger] reports[i + 1],
            kinds[i],
        )
}

/// A dry run reports what the real merge of the same items against the same
/// database reports: the same count of inserts of each kind and the same
/// count of duplicates (only the dry run rolls back, see `commits`).
pub proof fn lemma_dry_run_reports_as_real_run(
    kinds: Seq<ItemKind>,
    existing: Seq<i64>,
    dry: Seq<ImportReport>,
    committed: Seq<ImportReport>,
)
    requires
        recorded_in_turn(kinds, existing, dry),
        recorded_in_turn(kinds, existing, committed),
    ensures
        dry.last().total() == committed.last().total(),
        dry.last().skipped_duplicates == committed.last().skipped_duplicates,
        forall|k: ItemKind| #[trigger] dry.last().inserted(k) == committed.last().inserted(k),
{
    lemma_report_counts_every_item(kinds, existing, dry);
    lemma_report_counts_every_item(kinds, existing, committed);
    assert forall|k: ItemKind| #[trigger] dry.last().inserted(k) == committed.last().inserted(k) by {
        assert(dry.last().inserted(k) == merged(kinds, existing, k));
        assert(committed.last().inserted(k) == merged(kinds, existing, k));
    }
}

/// When every item of a dump already has a match (as after the same dump
/// was merged once), merging it again inserts nothing and counts every item
/// as a duplicate.
pub proof fn lemma_second_import_only_skips(
    kinds: Seq<ItemKind>,
    existing: Seq<i64>,
    reports: Seq<ImportReport>,
)
    requires
        recorded_in_turn(kinds, existing, reports),
        forall|i: int| 0 <= i < existing.len() ==> #[trigger] existing[i] > 0,
    ensures
        reports.last().skipped_duplicates == kinds.len(),
        forall|k: ItemKind| #[trigger] reports.last().inserted(k) == 0,
{
    lemma_report_counts_every_item(kinds, existing, reports);
    lemma_all_matched(kinds, existing);
    assert forall|k: ItemKind| #[trigger] reports.last().inserted(k) == 0 by {
        assert(reports.last().inserted(k) == merged(kinds, existing, k));
    }
}

/// With a match for every item, every item is a duplicate and none is
/// merged.
proof fn lemma_all_matched(kinds: Seq<ItemKind>, existing: Seq<i64>)
    requires
        kinds.len() == existing.len(),
        forall|i: int| 0 <= i < existing.len() ==> #[trigger] existing[i] > 0,
    ensures
        duplicates(existing) == existing.len(),
        forall|k: ItemKind| #[trigger] merged(kinds, existing, k) == 0,
    decreases existing.len(),
{
    if existing.len() > 0 {
        let n = existing.len() as int;
        assert forall|i: int| 0 <= i < n - 1 implies #[trigger] existing.drop_last()[i] > 0 by {
            assert(existing.drop_last()[i] == existing[i]);
        }
        lemma_all_matched(kinds.drop_last(), existing.drop_last());
        assert(existing.last() > 0);
        assert forall|k: ItemKind| #[trigger] merged(kinds, existing, k) == 0 by {
            assert(merged(kinds.drop_last(), existing.drop_last(), k) == 0);
        }
    } else {
        assert forall|k: ItemKind| #[trigger] merged(kinds, existing, k) == 0 by {}
    }
}

} // verus!
