//! Finding project folders: the sub-directories of a folder, down to a
//! depth, each flagged when a project already has its path. The caller
//! lists the directories; this decides which of them are hits.

use vstd::prelude::*;
use crate::text;

verus! {

/// A directory entry as listed: its path, its file name when that is
/// valid UTF-8, whether it is a directory, and, for a directory the scan
/// descends into, its own entries.
#[derive(Debug)]
pub struct DirNode {
    pub path: String,
    pub name: Option<String>,
    pub is_dir: bool,
    pub children: Vec<DirNode>,
}

/// A folder the scan found.
#[derive(Debug, Clone, PartialEq)]
pub struct ScanHit {
    pub path: String,
    pub name: String,
    pub already_registered: bool,
}

/// Path, name, and whether a project has the path.
pub type HitView = (Seq<char>, Seq<char>, bool);

pub open spec fn hit_view(h: ScanHit) -> HitView {
    (h.path@, h.name@, h.already_registered)
}

/// A hidden name: one that starts with a dot.
pub open spec fn is_hidden(name: Seq<char>) -> bool {
    name.len() > 0 && name[0] == '.'
}

/// An entry the scan reports and descends into: a directory whose name is
/// readable and not hidden.
pub open spec fn passes(n: DirNode) -> bool {
    &&& n.is_dir
    &&& match n.name {
        Some(m) => !is_hidden(m@),
        None => false,
    }
}

/// The hits among `nodes` and below them, `depth` levels down, in the
/// order of a depth-first walk: each hit comes before those inside it.
pub open spec fn walk_spec(nodes: Seq<DirNode>, depth: nat, existing: Seq<Seq<char>>) -> Seq<HitView>
    decreases depth, nodes.len(),
{
    if depth == 0 || nodes.len() == 0 {
        Seq::empty()
    } else {
        let prev = walk_spec(nodes.drop_last(), depth, existing);
        let n = nodes.last();
        if passes(n) {
            prev.push((n.path@, n.name->0@, existing.contains(n.path@))) + walk_spec(
                n.children@,
                (depth - 1) as nat,
                existing,
            )
        } else {
            prev
        }
    }
}

/// A name that is readable and not hidden.
pub open spec fn visible_name(name: Option<&str>) -> bool {
    match name {
        Some(m) => !is_hidden(m@),
        None => false,
    }
}

/// Whether the scan reports an entry and lists what is inside it.
pub fn should_descend(name: Option<&str>, is_dir: bool) -> (r: bool)
    ensures
        r == (is_dir && visible_name(name)),
{
    if !is_dir {
        return false;
    }
    match name {
        Some(m) => {
            let v = text::chars_of(m);
            !(v.len() > 0 && v[0] == '.')
        },
        None => false,
    }
}

fn walk(nodes: &Vec<DirNode>, depth: u32, existing: &Vec<String>, out: &mut Vec<ScanHit>)
    ensures
        final(out)@.map_values(|h: ScanHit| hit_view(h)) == old(out)@.map_values(
            |h: ScanHit| hit_view(h),
        ) + walk_spec(nodes@, depth as nat, text::strs_view(existing@)),
    decreases depth,
{
    let ghost ex = text::strs_view(existing@);
    let ghost start = old(out)@.map_values(|h: ScanHit| hit_view(h));
    if depth == 0 {
        assert(walk_spec(nodes@, 0, ex) =~= Seq::empty());
        assert(out@.map_values(|h: ScanHit| hit_view(h)) =~= start + Seq::empty());
        return;
    }
    let mut i: usize = 0;
    assert(nodes@.take(0) =~= Seq::<DirNode>::empty());
    assert(out@.map_values(|h: ScanHit| hit_view(h)) =~= start + walk_spec(
        nodes@.take(0),
        depth as nat,
        ex,
    ));
    while i < nodes.len()
        invariant
            i <= nodes.len(),
            depth > 0,
            ex == text::strs_view(existing@),
            out@.map_values(|h: ScanHit| hit_view(h)) == start + walk_spec(
                nodes@.take(i as int),
                depth as nat,
                ex,
            ),
        decreases nodes.len() - i,
    {
        let n = &nodes[i];
        let ghost before = out@.map_values(|h: ScanHit| hit_view(h));
        assert(nodes@.take(i + 1).drop_last() =~= nodes@.take(i as int));
        assert(nodes@.take(i + 1).last() == *n);
        let name: Option<&str> = match &n.name {
            Some(m) => Some(m.as_str()),
            None => None,
        };
        if should_descend(name, n.is_dir) {
            let m = match &n.name {
                Some(m) => m.clone(),
                None => String::new(),
            };
            let registered = crate::projects::contains_str(existing, n.path.as_str());
            out.push(ScanHit { path: n.path.clone(), name: m, already_registered: registered });
            let ghost mid = out@.map_values(|h: ScanHit| hit_view(h));
            assert(mid =~= before.push((n.path@, n.name->0@, ex.contains(n.path@))));
            walk(&n.children, depth - 1, existing, out);
            assert(out@.map_values(|h: ScanHit| hit_view(h)) =~= start + walk_spec(
                nodes@.take(i + 1),
                depth as nat,
                ex,
            ));
        }
        i += 1;
    }
    assert(nodes@.take(nodes.len() as int) =~= nodes@);
}

/// The folders under the listed entries of a folder, `depth` levels down,
/// in the order of a depth-first walk: directories only, none whose name
/// is hidden or unreadable (nor anything inside them), each flagged when
/// `existing_paths` holds its path.
pub fn scan_dir(entries: &Vec<DirNode>, depth: u32, existing_paths: &Vec<String>) -> (r: Vec<
    ScanHit,
>)
    ensures
        r@.map_values(|h: ScanHit| hit_view(h)) == walk_spec(
            entries@,
            depth as nat,
            text::strs_view(existing_paths@),
        ),
{
    let mut hits: Vec<ScanHit> = Vec::new();
    walk(entries, depth, existing_paths, &mut hits);
    assert(hits@.map_values(|h: ScanHit| hit_view(h)) =~= Seq::<HitView>::empty() + walk_spec(
        entries@,
        depth as nat,
        text::strs_view(existing_paths@),
    ));
    hits
}

/// The scan reports no hidden folder: every hit's name is readable and
/// does not start with a dot.
pub proof fn lemma_no_hidden_hits(nodes: Seq<DirNode>, depth: nat, existing: Seq<Seq<char>>)
    ensures
        forall|i: int|
            0 <= i < walk_spec(nodes, depth, existing).len() ==> !is_hidden(
                #[trigger] walk_spec(nodes, depth, existing)[i].1,
            ),
    decreases depth, nodes.len(),
{
    if depth > 0 && nodes.len() > 0 {
        lemma_no_hidden_hits(nodes.drop_last(), depth, existing);
        let n = nodes.last();
        if passes(n) {
            lemma_no_hidden_hits(n.children@, (depth - 1) as nat, existing);
            let prev = walk_spec(nodes.drop_last(), depth, existing);
            let head = prev.push((n.path@, n.name->0@, existing.contains(n.path@)));
            let rest = walk_spec(n.children@, (depth - 1) as nat, existing);
            assert(walk_spec(nodes, depth, existing) == head + rest);
            assert(!is_hidden(n.name->0@));
            assert forall|i: int| 0 <= i < (head + rest).len() implies !is_hidden(
                #[trigger] (head + rest)[i].1,
            ) by {
                if i < prev.len() {
                    assert((head + rest)[i] == prev[i]);
                } else if i == prev.len() {
                    assert((head + rest)[i] == head[i]);
                } else {
                    assert((head + rest)[i] == rest[i - head.len()]);
                }
            }
        } else {
            assert(walk_spec(nodes, depth, existing) == walk_spec(nodes.drop_last(), depth, existing));
        }
    }
}

} // verus!
