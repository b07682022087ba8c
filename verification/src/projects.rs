//! Project rules: which fields a patch writes, and which projects a board
//! filter shows.

use vstd::prelude::*;
use crate::models::Project;
use crate::text;

verus! {

/// The fields of a new project.
pub struct NewProject<'a> {
    pub name: &'a str,
    pub priority: &'a str,
    pub category: Option<&'a str>,
    pub path: Option<&'a str>,
    pub evaluation: Option<&'a str>,
}

/// The fields a project update may change; `None` leaves a field alone.
pub struct UpdateProject<'a> {
    pub name: Option<&'a str>,
    pub priority: Option<&'a str>,
    pub category: Option<&'a str>,
    pub path: Option<&'a str>,
    pub evaluation: Option<&'a str>,
}

/// A project update as the UI sends it.
pub struct UpdateProjectInput {
    pub name: Option<String>,
    pub priority: Option<String>,
    pub category: Option<String>,
    pub path: Option<String>,
    pub evaluation: Option<String>,
    /// Security-scoped bookmark for `path`; an empty one clears it.
    pub path_bookmark: Option<Vec<u8>>,
}

impl UpdateProjectInput {
    /// The patch this input asks for.
    pub fn as_patch(&self) -> (r: UpdateProject<'_>)
        ensures
            opt_str_view(r.name) == text::opt_view(self.name),
            opt_str_view(r.priority) == text::opt_view(self.priority),
            opt_str_view(r.category) == text::opt_view(self.category),
            opt_str_view(r.path) == text::opt_view(self.path),
            opt_str_view(r.evaluation) == text::opt_view(self.evaluation),
    {
        UpdateProject {
            name: text::opt_as_str(&self.name),
            priority: text::opt_as_str(&self.priority),
            category: text::opt_as_str(&self.category),
            path: text::opt_as_str(&self.path),
            evaluation: text::opt_as_str(&self.evaluation),
        }
    }
}

/// The contents of an optional string slice.
pub open spec fn opt_str_view(o: Option<&str>) -> Option<Seq<char>> {
    match o {
        Some(s) => Some(s@),
        None => None,
    }
}

/// One `(column, value)` pair when the field is given.
pub open spec fn opt_column(column: Seq<char>, v: Option<&str>) -> Seq<(Seq<char>, Seq<char>)> {
    match v {
        Some(x) => seq![(column, x@)],
        None => Seq::empty(),
    }
}

/// The columns a project patch writes, in this order: name, priority,
/// category, path, evaluation.
pub open spec fn project_patch_spec(p: UpdateProject) -> Seq<(Seq<char>, Seq<char>)> {
    opt_column("name"@, p.name) + opt_column("priority"@, p.priority) + opt_column(
        "category"@,
        p.category,
    ) + opt_column("path"@, p.path) + opt_column("evaluation"@, p.evaluation)
}

/// The contents of `(column, value)` pairs.
pub open spec fn pairs_view(v: Seq<(&'static str, String)>) -> Seq<(Seq<char>, Seq<char>)> {
    v.map_values(|p: (&'static str, String)| (p.0@, p.1@))
}

/// Appends `(column, value)` when the field is given.
pub fn push_column(out: &mut Vec<(&'static str, String)>, column: &'static str, v: Option<&str>)
    ensures
        pairs_view(final(out)@) == pairs_view(old(out)@) + opt_column(column@, v),
{
    let ghost before = pairs_view(out@);
    match v {
        Some(x) => {
            out.push((column, String::from_str(x)));
            assert(pairs_view(out@) =~= before + opt_column(column@, v));
        },
        None => {
            assert(pairs_view(out@) =~= before + opt_column(column@, v));
        },
    }
}

/// The `(column, value)` pairs a project patch writes; a patch that gives
/// no field is refused.
pub fn project_patch_columns(patch: &UpdateProject) -> (r: Result<Vec<(&'static str, String)>, String>)
    ensures
        project_patch_spec(*patch).len() == 0 ==> (r matches Err(e) && e@ == "no fields to update"@),
        project_patch_spec(*patch).len() > 0 ==> (r matches Ok(v) && pairs_view(v@)
            == project_patch_spec(*patch)),
{
    let mut out: Vec<(&'static str, String)> = Vec::new();
    assert(pairs_view(out@) =~= Seq::empty());
    push_column(&mut out, "name", patch.name);
    push_column(&mut out, "priority", patch.priority);
    push_column(&mut out, "category", patch.category);
    push_column(&mut out, "path", patch.path);
    push_column(&mut out, "evaluation", patch.evaluation);
    assert(pairs_view(out@) =~= project_patch_spec(*patch));
    if out.len() == 0 {
        Err(String::from_str("no fields to update"))
    } else {
        Ok(out)
    }
}

/// The `LIKE` pattern of a project search: the query between `%`s.
pub fn like_pattern(query: &str) -> (r: String)
    ensures
        r@ == seq!['%'] + query@ + seq!['%'],
{
    let mut r = String::new();
    r.push('%');
    r.append(query);
    r.push('%');
    assert(r@ =~= seq!['%'] + query@ + seq!['%']);
    r
}

/// A board filter: the priorities and the categories to show. A missing
/// or empty list shows everything.
pub struct ProjectFilter {
    pub priorities: Option<Vec<String>>,
    pub categories: Option<Vec<String>>,
}

/// The contents of an optional list of strings.
pub open spec fn opt_list_view(o: Option<Vec<String>>) -> Option<Seq<Seq<char>>> {
    match o {
        Some(v) => Some(text::strs_view(v@)),
        None => None,
    }
}

/// Whether a list filter lets a value through.
pub open spec fn list_allows(list: Option<Seq<Seq<char>>>, value: Option<Seq<char>>) -> bool {
    match list {
        None => true,
        Some(l) => l.len() == 0 || (value matches Some(v) && l.contains(v)),
    }
}

/// Whether `p` passes the filter.
pub open spec fn project_matches(
    priorities: Option<Seq<Seq<char>>>,
    categories: Option<Seq<Seq<char>>>,
    p: Project,
) -> bool {
    list_allows(priorities, Some(p.priority@)) && list_allows(categories, text::opt_view(p.category))
}

/// The filter as a predicate on projects.
pub open spec fn filter_pred(f: &ProjectFilter) -> spec_fn(Project) -> bool {
    |p: Project| project_matches(opt_list_view(f.priorities), opt_list_view(f.categories), p)
}

/// Whether `v` holds a string equal to `s`.
pub fn contains_str(v: &Vec<String>, s: &str) -> (r: bool)
    ensures
        r == text::strs_view(v@).contains(s@),
{
    let mut i: usize = 0;
    while i < v.len()
        invariant
            i <= v.len(),
            forall|k: int| 0 <= k < i ==> text::strs_view(v@)[k] != s@,
        decreases v.len() - i,
    {
        if text::str_eq(v[i].as_str(), s) {
            assert(text::strs_view(v@)[i as int] == s@);
            return true;
        }
        i += 1;
    }
    false
}

fn allows(list: &Option<Vec<String>>, value: Option<&str>) -> (r: bool)
    ensures
        r == list_allows(opt_list_view(*list), opt_str_view(value)),
{
    match list {
        None => true,
        Some(l) => {
            if l.len() == 0 {
                true
            } else {
                match value {
                    Some(v) => contains_str(l, v),
                    None => false,
                }
            }
        },
    }
}

/// The projects of `all` that pass the filter, in their order; without a
/// filter, all of them.
pub fn filter_projects(all: Vec<Project>, filter: Option<&ProjectFilter>) -> (r: Vec<Project>)
    ensures
        match filter {
            None => r@ == all@,
            Some(f) => r@ == all@.filter(filter_pred(f)),
        },
{
    match filter {
        None => all,
        Some(f) => {
            let ghost pred = filter_pred(f);
            let mut r: Vec<Project> = Vec::new();
            let mut i: usize = 0;
            assert(all@.take(0) =~= Seq::<Project>::empty());
            while i < all.len()
                invariant
                    i <= all.len(),
                    r@ == all@.take(i as int).filter(pred),
                    pred == filter_pred(f),
                decreases all.len() - i,
            {
                let p = &all[i];
                let cat: Option<&str> = text::opt_as_str(&p.category);
                let keep = allows(&f.priorities, Some(p.priority.as_str())) && allows(
                    &f.categories,
                    cat,
                );
                assert(all@.take(i + 1).drop_last() =~= all@.take(i as int));
                reveal_with_fuel(Seq::<Project>::filter, 1);
                assert(all@.take(i + 1).last() == all@[i as int]);
                assert(opt_str_view(cat) == text::opt_view(p.category));
                assert(keep == pred(all@[i as int]));
                if keep {
                    r.push(p.duplicate());
                }
                i += 1;
            }
            assert(all@.take(all.len() as int) =~= all@);
            r
        },
    }
}

/// What happens to a project's saved folder bookmark.
#[derive(Debug, Clone, PartialEq, Eq)]
pub enum BookmarkWrite {
    Keep,
    Clear,
    Save(Vec<u8>),
}

/// The bookmark change an update asks for: an empty bookmark clears the
/// saved one, a non-empty one replaces it, none keeps it.
pub fn bookmark_on_update(blob: Option<Vec<u8>>) -> (r: BookmarkWrite)
    ensures
        match blob {
            None => r == BookmarkWrite::Keep,
            Some(b) => if b@.len() == 0 {
                r == BookmarkWrite::Clear
            } else {
                r matches BookmarkWrite::Save(v) && v@ == b@
            },
        },
{
    match blob {
        None => BookmarkWrite::Keep,
        Some(b) => if b.len() == 0 {
            BookmarkWrite::Clear
        } else {
            BookmarkWrite::Save(b)
        },
    }
}

/// The bookmark a new project saves: only a non-empty one.
pub fn bookmark_on_create(blob: Option<Vec<u8>>) -> (r: BookmarkWrite)
    ensures
        match blob {
            Some(b) => if b@.len() == 0 {
                r == BookmarkWrite::Keep
            } else {
                r matches BookmarkWrite::Save(v) && v@ == b@
            },
            None => r == BookmarkWrite::Keep,
        },
{
    match blob {
        Some(b) => if b.len() == 0 {
            BookmarkWrite::Keep
        } else {
            BookmarkWrite::Save(b)
        },
        None => BookmarkWrite::Keep,
    }
}

} // verus!
