//! Statement text that the store layer runs: patch updates and reorders.

use vstd::prelude::*;

verus! {

/// `c1 = ?, c2 = ?, ...` for the given columns.
pub open spec fn set_clause(cols: Seq<Seq<char>>) -> Seq<char>
    decreases cols.len(),
{
    if cols.len() == 0 {
        Seq::empty()
    } else if cols.len() == 1 {
        cols[0] + " = ?"@
    } else {
        set_clause(cols.drop_last()) + ", "@ + cols.last() + " = ?"@
    }
}

/// `UPDATE <table> SET <cols>, updated_at = datetime('now') WHERE id = ?`.
pub open spec fn update_statement_spec(table: Seq<char>, cols: Seq<Seq<char>>) -> Seq<char> {
    "UPDATE "@ + table + " SET "@ + set_clause(cols) + ", updated_at = datetime('now') WHERE id = ?"@
}

/// The names of the given columns.
pub open spec fn names_view(cols: Seq<&'static str>) -> Seq<Seq<char>> {
    cols.map_values(|c: &'static str| c@)
}

/// The statement that sets the given columns of one row, and its
/// `updated_at`, the row's id bound last.
pub fn update_statement(table: &str, cols: &[&'static str]) -> (r: String)
    ensures
        r@ == update_statement_spec(table@, names_view(cols@)),
{
    let mut clause = String::new();
    let mut i: usize = 0;
    while i < cols.len()
        invariant
            i <= cols.len(),
            clause@ == set_clause(names_view(cols@).take(i as int)),
        decreases cols.len() - i,
    {
        let ghost before = clause@;
        if i > 0 {
            clause.append(", ");
        }
        clause.append(cols[i]);
        clause.append(" = ?");
        i += 1;
        let ghost t = names_view(cols@).take(i as int);
        assert(t.drop_last() =~= names_view(cols@).take(i - 1));
        if i == 1 {
            assert(before =~= Seq::<char>::empty());
            assert(clause@ =~= t[0] + " = ?"@);
        } else {
            assert(clause@ =~= before + ", "@ + t.last() + " = ?"@);
        }
    }
    assert(names_view(cols@).take(cols.len() as int) =~= names_view(cols@));
    let mut r = String::from_str("UPDATE ");
    r.append(table);
    r.append(" SET ");
    r.append(clause.as_str());
    r.append(", updated_at = datetime('now') WHERE id = ?");
    r
}

/// The new positions of a reorder: the row listed `k`-th gets sort order
/// `k`, as `(sort_order, id)` pairs.
pub fn reorder_pairs(ids: &[i64]) -> (r: Vec<(i64, i64)>)
    ensures
        r@.len() == ids@.len(),
        forall|k: int| 0 <= k < ids@.len() ==> #[trigger] r@[k] == (k as i64, ids@[k]),
{
    let mut r: Vec<(i64, i64)> = Vec::new();
    let mut i: usize = 0;
    while i < ids.len()
        invariant
            i <= ids.len(),
            r@.len() == i,
            forall|k: int| 0 <= k < i ==> #[trigger] r@[k] == (k as i64, ids@[k]),
        decreases ids.len() - i,
    {
        r.push((i as i64, ids[i]));
        i += 1;
    }
    r
}

/// The sort order after the current largest one.
pub fn next_sort_order(max_order: i64) -> (r: i64)
    requires
        max_order < i64::MAX,
    ensures
        r == max_order + 1,
{
    max_order + 1
}

} // verus!
