//! Backup files: their names, which of them the rolling retention deletes,
//! and what a workspace reset wipes.

use vstd::prelude::*;
use crate::text;

verus! {

/// Prefix of the rolling backups.
pub const BACKUP_PREFIX: &'static str = "hearth-backup-";

/// Prefix of the snapshots taken before a reset.
pub const PRE_RESET_PREFIX: &'static str = "pre-reset-";

/// How many rolling backups are kept.
pub const KEEP_BACKUPS: usize = 5;

/// `p` is a prefix of `s`.
pub open spec fn has_prefix(s: Seq<char>, p: Seq<char>) -> bool {
    p.len() <= s.len() && s.subrange(0, p.len() as int) == p
}

/// Whether `s` starts with `p`.
pub fn starts_with(s: &str, p: &str) -> (r: bool)
    ensures
        r == has_prefix(s@, p@),
{
    let sv = text::chars_of(s);
    let pv = text::chars_of(p);
    if pv.len() > sv.len() {
        return false;
    }
    let head = text::slice_subrange(sv.as_slice(), 0, pv.len());
    text::chars_eq(head, pv.as_slice())
}

/// `a` sorts before `b` (code point order, which is also the byte order of
/// their UTF-8 encodings).
pub open spec fn str_lt(a: Seq<char>, b: Seq<char>) -> bool
    decreases a.len(),
{
    if a.len() == 0 {
        b.len() > 0
    } else if b.len() == 0 {
        false
    } else if a[0] != b[0] {
        a[0] < b[0]
    } else {
        str_lt(a.drop_first(), b.drop_first())
    }
}

/// Whether `a` sorts before `b`.
pub fn less_than(a: &[char], b: &[char]) -> (r: bool)
    ensures
        r == str_lt(a@, b@),
{
    let mut i: usize = 0;
    assert(a@.subrange(0, a.len() as int) =~= a@);
    assert(b@.subrange(0, b.len() as int) =~= b@);
    while i < a.len() && i < b.len() && a[i] == b[i]
        invariant
            i <= a.len(),
            i <= b.len(),
            str_lt(a@, b@) == str_lt(a@.subrange(i as int, a.len() as int), b@.subrange(i as int, b.len() as int)),
        decreases a.len() - i,
    {
        assert(a@.subrange(i as int, a.len() as int).drop_first() =~= a@.subrange(i + 1, a.len() as int));
        assert(b@.subrange(i as int, b.len() as int).drop_first() =~= b@.subrange(i + 1, b.len() as int));
        i += 1;
    }
    if i == a.len() {
        i < b.len()
    } else if i == b.len() {
        false
    } else {
        a[i] < b[i]
    }
}

/// No string sorts before itself.
pub proof fn lemma_lt_irreflexive(a: Seq<char>)
    ensures
        !str_lt(a, a),
    decreases a.len(),
{
    if a.len() > 0 {
        lemma_lt_irreflexive(a.drop_first());
    }
}

/// How many of `f[0..upto]` sort after `x`.
pub open spec fn count_after(f: Seq<Seq<char>>, x: Seq<char>, upto: int) -> nat
    decreases upto,
{
    if upto <= 0 {
        0
    } else {
        count_after(f, x, upto - 1) + if str_lt(x, f[upto - 1]) { 1nat } else { 0nat }
    }
}

/// How many of `f[0..upto]` equal `x`.
pub open spec fn count_same(f: Seq<Seq<char>>, x: Seq<char>, upto: int) -> nat
    decreases upto,
{
    if upto <= 0 {
        0
    } else {
        count_same(f, x, upto - 1) + if f[upto - 1] == x { 1nat } else { 0nat }
    }
}

/// The place of `f[i]` once `f` is sorted newest (greatest name) first,
/// equal names keeping their order.
pub open spec fn newest_rank(f: Seq<Seq<char>>, i: int) -> nat {
    count_after(f, f[i], f.len() as int) + count_same(f, f[i], i)
}

/// The rolling backups among `names`, in order.
pub open spec fn rolling_backups(names: Seq<Seq<char>>) -> Seq<Seq<char>> {
    names.filter(|n: Seq<char>| has_prefix(n, BACKUP_PREFIX@))
}

/// Those of `f[0..k]` whose place newest-first in all of `f` is past the
/// newest `KEEP_BACKUPS`, in order.
pub open spec fn pruned_upto(f: Seq<Seq<char>>, k: int) -> Seq<Seq<char>>
    decreases k,
{
    if k <= 0 {
        Seq::empty()
    } else {
        let prev = pruned_upto(f, k - 1);
        if newest_rank(f, k - 1) >= KEEP_BACKUPS {
            prev.push(f[k - 1])
        } else {
            prev
        }
    }
}

/// The backups of `f` past the newest `KEEP_BACKUPS`, in the given order.
pub open spec fn pruned_spec(f: Seq<Seq<char>>) -> Seq<Seq<char>> {
    pruned_upto(f, f.len() as int)
}

fn count_rank(f: &Vec<String>, i: usize) -> (r: usize)
    requires
        i < f.len(),
    ensures
        r == newest_rank(text::strs_view(f@), i as int),
{
    let ghost fv = text::strs_view(f@);
    let x = text::chars_of(f[i].as_str());
    let mut after: usize = 0;
    let mut same: usize = 0;
    let mut j: usize = 0;
    while j < f.len()
        invariant
            j <= f.len(),
            fv == text::strs_view(f@),
            i < f.len(),
            x@ == fv[i as int],
            after == count_after(fv, fv[i as int], j as int),
            same == count_same(fv, fv[i as int], if j < i { j as int } else { i as int }),
            after + same <= j,
        decreases f.len() - j,
    {
        let y = text::chars_of(f[j].as_str());
        if less_than(x.as_slice(), y.as_slice()) {
            after += 1;
        }
        proof {
            lemma_lt_irreflexive(x@);
        }
        if j < i && text::chars_eq(x.as_slice(), y.as_slice()) {
            same += 1;
        }
        j += 1;
    }
    after + same
}

/// The rolling backups that retention deletes: all but the newest five.
pub fn backups_to_prune(names: &Vec<String>) -> (r: Vec<String>)
    ensures
        text::strs_view(r@) == pruned_spec(rolling_backups(text::strs_view(names@))),
{
    let mut f: Vec<String> = Vec::new();
    let ghost nv = text::strs_view(names@);
    let ghost pred = |n: Seq<char>| has_prefix(n, BACKUP_PREFIX@);
    let mut i: usize = 0;
    assert(nv.take(0) =~= Seq::<Seq<char>>::empty());
    assert(text::strs_view(f@) =~= Seq::<Seq<char>>::empty());
    while i < names.len()
        invariant
            i <= names.len(),
            nv == text::strs_view(names@),
            pred == (|n: Seq<char>| has_prefix(n, BACKUP_PREFIX@)),
            text::strs_view(f@) == nv.take(i as int).filter(pred),
        decreases names.len() - i,
    {
        assert(nv.take(i + 1).drop_last() =~= nv.take(i as int));
        reveal_with_fuel(Seq::<Seq<char>>::filter, 1);
        if starts_with(names[i].as_str(), BACKUP_PREFIX) {
            let ghost before = text::strs_view(f@);
            f.push(names[i].clone());
            assert(text::strs_view(f@) =~= before.push(nv[i as int]));
        }
        i += 1;
    }
    assert(nv.take(names.len() as int) =~= nv);
    let ghost fv = text::strs_view(f@);
    let mut out: Vec<String> = Vec::new();
    let mut k: usize = 0;
    assert(text::strs_view(out@) =~= Seq::<Seq<char>>::empty());
    while k < f.len()
        invariant
            k <= f.len(),
            fv == text::strs_view(f@),
            text::strs_view(out@) == pruned_upto(fv, k as int),
        decreases f.len() - k,
    {
        let rank = count_rank(&f, k);
        if rank >= KEEP_BACKUPS {
            let ghost before = text::strs_view(out@);
            out.push(f[k].clone());
            assert(text::strs_view(out@) =~= before.push(fv[k as int]));
        }
        k += 1;
    }
    out
}

/// `count_after` and `count_same` never count the name itself: a name's
/// place among `upto` names, counted so far, leaves room for it.
proof fn lemma_rank_room(f: Seq<Seq<char>>, i: int, upto: int)
    requires
        0 <= i < f.len(),
        0 <= upto <= f.len(),
    ensures
        count_after(f, f[i], upto) + count_same(f, f[i], if upto < i { upto } else { i }) + (if i
            < upto {
            1int
        } else {
            0int
        }) <= upto,
    decreases upto,
{
    if upto > 0 {
        lemma_rank_room(f, i, upto - 1);
        lemma_lt_irreflexive(f[i]);
    }
}

/// The name of a rolling backup taken at `stamp`.
pub fn backup_file_name(stamp: &str) -> (r: String)
    ensures
        r@ == BACKUP_PREFIX@ + stamp@ + ".db"@,
{
    let mut r = String::from_str(BACKUP_PREFIX);
    r.append(stamp);
    r.append(".db");
    r
}

/// The name of the snapshot taken before a reset at `stamp`.
pub fn pre_reset_file_name(stamp: &str) -> (r: String)
    ensures
        r@ == PRE_RESET_PREFIX@ + stamp@ + ".db"@,
{
    let mut r = String::from_str(PRE_RESET_PREFIX);
    r.append(stamp);
    r.append(".db");
    r
}

/// The tables a reset empties (their id counters restart too); categories
/// and settings stay.
pub fn reset_tables() -> (r: Vec<&'static str>)
    ensures
        r@.len() == 4,
        r@[0]@ == "memos"@,
        r@[1]@ == "schedules"@,
        r@[2]@ == "projects"@,
        r@[3]@ == "clients"@,
{
    vec!["memos", "schedules", "projects", "clients"]
}

/// A backup file as the restore list shows it.
#[derive(Debug, Clone, PartialEq)]
pub struct BackupInfo {
    pub path: String,
    pub filename: String,
    pub size_bytes: u64,
    pub created: String,
}

/// A file the restore list shows: a rolling backup or a pre-reset
/// snapshot.
pub open spec fn listed(name: Seq<char>) -> bool {
    has_prefix(name, BACKUP_PREFIX@) || has_prefix(name, PRE_RESET_PREFIX@)
}

/// `a` comes no later than `b` in the restore list: its name is not
/// smaller.
pub open spec fn newer_or_same(a: BackupInfo, b: BackupInfo) -> bool {
    !str_lt(a.filename@, b.filename@)
}

/// The list is ordered newest name first.
pub open spec fn newest_first(v: Seq<BackupInfo>) -> bool {
    forall|i: int, j: int| 0 <= i < j < v.len() ==> newer_or_same(#[trigger] v[i], #[trigger] v[j])
}

/// `str_lt` is transitive.
proof fn lemma_lt_transitive(a: Seq<char>, b: Seq<char>, c: Seq<char>)
    requires
        str_lt(a, b),
        str_lt(b, c),
    ensures
        str_lt(a, c),
    decreases a.len(),
{
    if a.len() > 0 && b.len() > 0 && c.len() > 0 && a[0] == b[0] && b[0] == c[0] {
        lemma_lt_transitive(a.drop_first(), b.drop_first(), c.drop_first());
    }
}

/// Of two different names, one sorts before the other.
proof fn lemma_lt_total(a: Seq<char>, b: Seq<char>)
    ensures
        str_lt(a, b) || str_lt(b, a) || a =~= b,
    decreases a.len(),
{
    if a.len() > 0 && b.len() > 0 && a[0] == b[0] {
        lemma_lt_total(a.drop_first(), b.drop_first());
        if a.drop_first() =~= b.drop_first() {
            assert(a =~= seq![a[0]] + a.drop_first());
            assert(b =~= seq![b[0]] + b.drop_first());
        }
    }
}

/// The files of the restore list, newest name first: the rolling backups
/// and pre-reset snapshots among `entries`, no others.
pub fn list_backups(entries: Vec<BackupInfo>) -> (r: Vec<BackupInfo>)
    ensures
        newest_first(r@),
        r@.to_multiset() == entries@.filter(|b: BackupInfo| listed(b.filename@)).to_multiset(),
{
    let ghost pred = |b: BackupInfo| listed(b.filename@);
    let mut out: Vec<BackupInfo> = Vec::new();
    let mut rest = entries;
    let ghost all = rest@;
    let mut i: usize = 0;
    let n = rest.len();
    assert(all.take(0) =~= Seq::<BackupInfo>::empty());
    assert(all.skip(0) =~= all);
    reveal_with_fuel(Seq::<BackupInfo>::filter, 1);
    assert(all.take(0).filter(pred) =~= Seq::<BackupInfo>::empty());
    assert(out@ =~= Seq::<BackupInfo>::empty());
    while i < n
        invariant
            n == all.len(),
            i <= n,
            rest@ == all.skip(i as int),
            pred == (|b: BackupInfo| listed(b.filename@)),
            newest_first(out@),
            out@.to_multiset() == all.take(i as int).filter(pred).to_multiset(),
        decreases n - i,
    {
        let e = rest.remove(0);
        assert(e == all[i as int]);
        assert(all.take(i + 1).drop_last() =~= all.take(i as int));
        reveal_with_fuel(Seq::<BackupInfo>::filter, 1);
        let keep = starts_with(e.filename.as_str(), BACKUP_PREFIX) || starts_with(
            e.filename.as_str(),
            PRE_RESET_PREFIX,
        );
        if keep {
            let ghost before = out@;
            let name = text::chars_of(e.filename.as_str());
            let mut k: usize = 0;
            while k < out.len() && !less_than(
                text::chars_of(out[k].filename.as_str()).as_slice(),
                name.as_slice(),
            )
                invariant
                    k <= out.len(),
                    out@ == before,
                    name@ == e.filename@,
                    forall|j: int| 0 <= j < k ==> newer_or_same(#[trigger] out@[j], e),
                decreases out.len() - k,
            {
                k += 1;
            }
            proof {
                if k < out.len() {
                    assert(str_lt(out@[k as int].filename@, e.filename@));
                    assert forall|j: int| k <= j < out.len() implies newer_or_same(
                        e,
                        #[trigger] out@[j],
                    ) by {
                        if j > k {
                            assert(newer_or_same(out@[k as int], out@[j]));
                            if str_lt(e.filename@, out@[j].filename@) {
                                lemma_lt_total(out@[k as int].filename@, out@[j].filename@);
                                if str_lt(out@[j].filename@, out@[k as int].filename@) {
                                    lemma_lt_transitive(
                                        e.filename@,
                                        out@[j].filename@,
                                        out@[k as int].filename@,
                                    );
                                    lemma_lt_transitive(
                                        out@[k as int].filename@,
                                        e.filename@,
                                        out@[k as int].filename@,
                                    );
                                    lemma_lt_irreflexive(out@[k as int].filename@);
                                } else {
                                    lemma_lt_transitive(
                                        out@[k as int].filename@,
                                        e.filename@,
                                        out@[j].filename@,
                                    );
                                }
                            }
                        } else {
                            lemma_lt_total(e.filename@, out@[k as int].filename@);
                            if str_lt(e.filename@, out@[k as int].filename@) {
                                lemma_lt_transitive(
                                    e.filename@,
                                    out@[k as int].filename@,
                                    e.filename@,
                                );
                                lemma_lt_irreflexive(e.filename@);
                            }
                        }
                    }
                }
            }
            out.insert(k, e);
            proof {
                let now = out@;
                assert(now == before.insert(k as int, all[i as int]));
                assert forall|a: int, b: int| 0 <= a < b < now.len() implies newer_or_same(
                    #[trigger] now[a],
                    #[trigger] now[b],
                ) by {
                    if a < k && b == k {
                    } else if a < k && b > k {
                        assert(now[b] == before[b - 1]);
                    } else if a == k {
                        assert(now[b] == before[b - 1]);
                    } else if a > k {
                        assert(now[a] == before[a - 1]);
                        assert(now[b] == before[b - 1]);
                    }
                }
                vstd::seq_lib::to_multiset_insert(before, k as int, all[i as int]);
                assert(all.take(i + 1).filter(pred) == all.take(i as int).filter(pred).push(
                    all[i as int],
                ));
                vstd::seq_lib::to_multiset_build(all.take(i as int).filter(pred), all[i as int]);
            }
        }
        i += 1;
        assert(rest@ =~= all.skip(i as int));
    }
    assert(all.take(n as int) =~= all);
    out
}

/// What `pruned_upto` picks comes from `f`.
proof fn lemma_pruned_from(f: Seq<Seq<char>>, k: int)
    requires
        0 <= k <= f.len(),
    ensures
        forall|i: int|
            0 <= i < pruned_upto(f, k).len() ==> exists|j: int|
                0 <= j < k && #[trigger] pruned_upto(f, k)[i] == f[j],
    decreases k,
{
    if k > 0 {
        lemma_pruned_from(f, k - 1);
        let prev = pruned_upto(f, k - 1);
        assert forall|i: int| 0 <= i < pruned_upto(f, k).len() implies exists|j: int|
            0 <= j < k && #[trigger] pruned_upto(f, k)[i] == f[j] by {
            if i < prev.len() {
                assert(pruned_upto(f, k)[i] == prev[i]);
                let j = choose|j: int| 0 <= j < k - 1 && prev[i] == f[j];
                assert(pruned_upto(f, k)[i] == f[j]);
            } else {
                assert(pruned_upto(f, k)[i] == f[k - 1]);
            }
        }
    }
}

/// Retention only ever deletes rolling backups: every file it picks has
/// the `hearth-backup-` prefix, so pre-reset snapshots are never deleted.
pub proof fn lemma_prune_only_rolling(names: Seq<Seq<char>>)
    ensures
        forall|i: int|
            0 <= i < pruned_spec(rolling_backups(names)).len() ==> has_prefix(
                #[trigger] pruned_spec(rolling_backups(names))[i],
                BACKUP_PREFIX@,
            ),
{
    let f = rolling_backups(names);
    lemma_pruned_from(f, f.len() as int);
    assert forall|i: int| 0 <= i < pruned_spec(f).len() implies has_prefix(
        #[trigger] pruned_spec(f)[i],
        BACKUP_PREFIX@,
    ) by {
        let j = choose|j: int| 0 <= j < f.len() && pruned_upto(f, f.len() as int)[i] == f[j];
        assert(f.contains(f[j]));
    }
}

/// `count_same` only grows with the prefix it counts in.
proof fn lemma_same_mono(f: Seq<Seq<char>>, x: Seq<char>, a: int, b: int)
    requires
        0 <= a <= b <= f.len(),
    ensures
        count_same(f, x, a) <= count_same(f, x, b),
        a < b && f[a] == x ==> count_same(f, x, a) + 1 <= count_same(f, x, b),
    decreases b - a,
{
    if a < b {
        lemma_same_mono(f, x, a, b - 1);
        if a < b - 1 && f[a] == x {
            lemma_same_mono(f, x, a + 1, b - 1);
        }
    }
}

/// A smaller name has every name above a larger one above it, and the
/// larger one's equals too.
proof fn lemma_after_lt(f: Seq<Seq<char>>, x: Seq<char>, y: Seq<char>, u: int)
    requires
        str_lt(x, y),
        0 <= u <= f.len(),
    ensures
        count_after(f, y, u) + count_same(f, y, u) <= count_after(f, x, u),
    decreases u,
{
    if u > 0 {
        lemma_after_lt(f, x, y, u - 1);
        let z = f[u - 1];
        if str_lt(y, z) {
            lemma_lt_transitive(x, y, z);
            if z == y {
                lemma_lt_irreflexive(y);
            }
        }
    }
}

/// Two different places get different ranks.
proof fn lemma_rank_injective(f: Seq<Seq<char>>, i: int, j: int)
    requires
        0 <= i < f.len(),
        0 <= j < f.len(),
        i != j,
    ensures
        newest_rank(f, i) != newest_rank(f, j),
{
    let n = f.len() as int;
    lemma_lt_total(f[i], f[j]);
    if f[i] =~= f[j] {
        if i < j {
            lemma_same_mono(f, f[i], i, j);
        } else {
            lemma_same_mono(f, f[j], j, i);
        }
    } else if str_lt(f[i], f[j]) {
        lemma_after_lt(f, f[i], f[j], n);
        lemma_same_mono(f, f[j], j, n);
    } else {
        lemma_after_lt(f, f[j], f[i], n);
        lemma_same_mono(f, f[i], i, n);
    }
}

/// How many of `f[0..k]` retention deletes.
proof fn lemma_pruned_len(f: Seq<Seq<char>>, k: int)
    requires
        0 <= k <= f.len(),
    ensures
        pruned_upto(f, k).len() == set_int_range_filter(f, k).len(),
        set_int_range_filter(f, k).finite(),
    decreases k,
{
    if k == 0 {
        assert(set_int_range_filter(f, 0) =~= Set::<int>::empty());
    } else {
        lemma_pruned_len(f, k - 1);
        let prev = set_int_range_filter(f, k - 1);
        if newest_rank(f, k - 1) >= KEEP_BACKUPS {
            assert(set_int_range_filter(f, k) =~= prev.insert(k - 1));
        } else {
            assert(set_int_range_filter(f, k) =~= prev);
        }
    }
}

/// The places among the first `k` whose rank is past the kept ones.
pub open spec fn set_int_range_filter(f: Seq<Seq<char>>, k: int) -> Set<int> {
    Set::new(|i: int| 0 <= i < k && newest_rank(f, i) >= KEEP_BACKUPS)
}

/// Retention keeps exactly the newest five rolling backups: of `n` of
/// them it deletes `n - 5`, and none when there are at most five.
pub proof fn lemma_retention_keeps_five(names: Seq<Seq<char>>)
    ensures
        pruned_spec(rolling_backups(names)).len() == if rolling_backups(names).len()
            > KEEP_BACKUPS {
            rolling_backups(names).len() - KEEP_BACKUPS
        } else {
            0
        },
{
    let f = rolling_backups(names);
    let n = f.len() as int;
    let keep = if n < KEEP_BACKUPS { n } else { KEEP_BACKUPS as int };
    let rank = |i: int| newest_rank(f, i) as int;
    let all = vstd::set_lib::set_int_range(0, n);
    vstd::set_lib::lemma_int_range(0, n);
    assert forall|i: int, j: int|
        all.contains(i) && all.contains(j) && #[trigger] rank(i) == #[trigger] rank(j) implies i
        == j by {
        if i != j {
            lemma_rank_injective(f, i, j);
        }
    }
    assert(vstd::relations::injective_on(rank, all));
    assert forall|i: int| 0 <= i < n implies #[trigger] rank(i) < n by {
        lemma_rank_room(f, i, n);
    }
    let image = all.map(rank);
    vstd::set_lib::lemma_map_size(all, image, rank);
    assert(image.subset_of(all));
    vstd::set_lib::lemma_subset_equality(image, all);
    let low = all.filter(|i: int| rank(i) < KEEP_BACKUPS);
    let high = set_int_range_filter(f, n);
    vstd::set_lib::lemma_len_subset(low, all);
    vstd::set_lib::lemma_len_subset(high, all);
    let low_ranks = vstd::set_lib::set_int_range(0, keep);
    vstd::set_lib::lemma_int_range(0, keep);
    assert(low.map(rank) =~= low_ranks) by {
        assert forall|r: int| low_ranks.contains(r) implies #[trigger] low.map(rank).contains(r) by {
            assert(image.contains(r));
            let i = choose|i: int| all.contains(i) && rank(i) == r;
            assert(low.contains(i));
        }
    }
    vstd::set_lib::lemma_map_size(low, low_ranks, rank);
    assert(low.disjoint(high));
    assert(low + high =~= all);
    vstd::set_lib::lemma_set_disjoint_lens(low, high);
    lemma_pruned_len(f, n);
}

/// Where a backup is written: the requested file, or a rolling backup
/// named for `stamp` in the backup folder.
pub fn backup_destination(requested: Option<String>, dir: &str, stamp: &str) -> (r: String)
    ensures
        match requested {
            Some(p) => r == p,
            None => r@ == text::path_join(dir@, BACKUP_PREFIX@ + stamp@ + ".db"@),
        },
{
    match requested {
        Some(p) => p,
        None => text::join_path(dir, backup_file_name(stamp).as_str()),
    }
}

} // verus!
