//! The command line: its commands and arguments, where it finds the
//! database, and the checks and messages between parsing and the store.

use vstd::prelude::*;
use crate::text;
use crate::models::Category;

verus! {

/// `hearth category ...`
#[derive(Debug, Clone, PartialEq)]
pub enum CategoryCmd {
    List,
    Create { name: String, color: Option<String> },
    Rename { old_name: String, new_name: String },
    Update { id: i64, name: Option<String>, color: Option<String>, sort_order: Option<i64> },
    Delete { id: i64 },
}

/// The formats `hearth export` writes.
#[derive(Debug, Clone, Copy, PartialEq, Eq, Structural)]
pub enum ExportFormat {
    Json,
    Sqlite,
}

/// `hearth export ...`
#[derive(Debug, Clone, PartialEq)]
pub struct ExportArgs {
    pub format: ExportFormat,
    pub out: Option<String>,
    pub include_audit: bool,
}

/// `hearth import ...`
#[derive(Debug, Clone, PartialEq)]
pub struct ImportArgs {
    pub file: String,
    pub replace: bool,
    pub merge: bool,
    pub dry_run: bool,
    pub yes: bool,
}

/// `hearth log ...`
#[derive(Debug, Clone, PartialEq)]
pub enum LogCmd {
    Show { limit: i64, source: Option<String>, table: Option<String>, include_undone: bool },
    Undo { count: i64 },
    Redo { count: i64 },
}

/// `hearth memo-tag ...`
#[derive(Debug, Clone, PartialEq)]
pub enum MemoTagCmd {
    List,
    Create { name: String, color: Option<String> },
    Update { id: i64, name: Option<String>, color: Option<String>, sort_order: Option<i64> },
    Delete { id: i64 },
}

/// `hearth project ...`
#[derive(Debug, Clone, PartialEq)]
pub enum ProjectCmd {
    List { priority: Vec<String>, category: Vec<String> },
    Get { id: i64 },
    Create {
        name: String,
        priority: String,
        category: Option<String>,
        path: Option<String>,
        evaluation: Option<String>,
    },
    Update {
        id: i64,
        name: Option<String>,
        priority: Option<String>,
        category: Option<String>,
        path: Option<String>,
        evaluation: Option<String>,
    },
    Delete { id: i64 },
}

/// `hearth search ...`
#[derive(Debug, Clone, PartialEq)]
pub struct SearchArgs {
    pub query: String,
    pub scope: Vec<String>,
    pub limit: i64,
}

/// The application data directory of the current bundle, under a home
/// directory.
pub open spec fn data_dir_spec(home: Seq<char>) -> Seq<char> {
    text::path_join(
        text::path_join(text::path_join(home, "Library"@), "Application Support"@),
        "com.codewithgenie.hearth"@,
    )
}

/// The data directory of the bundle's former identifier.
pub open spec fn legacy_data_dir_spec(home: Seq<char>) -> Seq<char> {
    text::path_join(
        text::path_join(text::path_join(home, "Library"@), "Application Support"@),
        "com.newturn2017.hearth"@,
    )
}

/// The application data directory under `home`.
pub fn data_dir(home: &str) -> (r: String)
    ensures
        r@ == data_dir_spec(home@),
{
    let lib = text::join_path(home, "Library");
    let support = text::join_path(lib.as_str(), "Application Support");
    text::join_path(support.as_str(), "com.codewithgenie.hearth")
}

/// The former data directory under `home`.
pub fn legacy_data_dir(home: &str) -> (r: String)
    ensures
        r@ == legacy_data_dir_spec(home@),
{
    let lib = text::join_path(home, "Library");
    let support = text::join_path(lib.as_str(), "Application Support");
    text::join_path(support.as_str(), "com.newturn2017.hearth")
}

/// The database in the data directory of the user whose home is `home`;
/// none without a home.
pub fn default_db_path(home: Option<String>) -> (r: Option<String>)
    ensures
        match home {
            Some(h) => r matches Some(p) && p@ == text::path_join(data_dir_spec(h@), "data.db"@),
            None => r is None,
        },
{
    match home {
        Some(h) => {
            let dir = data_dir(h.as_str());
            Some(text::join_path(dir.as_str(), "data.db"))
        },
        None => None,
    }
}

/// Whether the data directory moves from its former name: only when the
/// former exists and the current does not, so nothing is overwritten.
pub fn should_move_legacy_dir(new_exists: bool, legacy_exists: bool) -> (r: bool)
    ensures
        r == (!new_exists && legacy_exists),
{
    !new_exists && legacy_exists
}

/// The message when no database path can be found.
pub const NO_DB_PATH: &'static str = "could not resolve default DB path. Pass --db <PATH> or set HEARTH_DB=<PATH>.";

/// The database to use: the `--db` flag, else `HEARTH_DB`, else the
/// default path; an error when there is none of them.
pub fn resolve_db_path(flag: Option<String>, env: Option<String>, default: Option<String>) -> (r:
    Result<String, String>)
    ensures
        flag is Some ==> r == Ok::<String, String>(flag->0),
        flag is None && env is Some ==> r == Ok::<String, String>(env->0),
        flag is None && env is None && default is Some ==> r == Ok::<String, String>(
            default->0,
        ),
        flag is None && env is None && default is None ==> (r matches Err(e) && e@ == NO_DB_PATH@),
{
    match flag {
        Some(p) => Ok(p),
        None => match env {
            Some(e) => Ok(e),
            None => match default {
                Some(d) => Ok(d),
                None => Err(String::from_str(NO_DB_PATH)),
            },
        },
    }
}

/// The checks on `hearth import` flags before anything is read: one mode
/// must be asked for, and a replace that writes needs `--yes`.
pub fn check_import_args(args: &ImportArgs) -> (r: Result<(), String>)
    ensures
        !args.replace && !args.merge && !args.dry_run ==> (r matches Err(e) && e@
            == "specify --merge, --replace, or --dry-run"@),
        (args.replace || args.merge || args.dry_run) && args.replace && !args.yes && !args.dry_run
            ==> (r matches Err(e) && e@
            == "--replace requires --yes to confirm the destructive operation"@),
        (args.replace || args.merge || args.dry_run) && !(args.replace && !args.yes
            && !args.dry_run) ==> r is Ok,
{
    if !args.replace && !args.merge && !args.dry_run {
        return Err(String::from_str("specify --merge, --replace, or --dry-run"));
    }
    if args.replace && !args.yes && !args.dry_run {
        return Err(String::from_str("--replace requires --yes to confirm the destructive operation"));
    }
    Ok(())
}

/// Whether an import empties the tables (after a backup) before merging:
/// a replace that is not a dry run.
pub fn import_replaces(args: &ImportArgs) -> (r: bool)
    ensures
        r == (args.replace && !args.dry_run),
{
    args.replace && !args.dry_run
}

/// The file name of the backup taken before a replacing import.
pub fn pre_import_backup_name(stamp: &str) -> (r: String)
    ensures
        r@ == "pre-import-"@ + stamp@ + ".db"@,
{
    let mut r = String::from_str("pre-import-");
    r.append(stamp);
    r.append(".db");
    r
}

/// The tables a replacing import empties, in an order that respects their
/// references.
pub fn replace_truncation_order() -> (r: Vec<&'static str>)
    ensures
        r@.len() == 5,
        r@[0]@ == "audit_log"@,
        r@[1]@ == "memos"@,
        r@[2]@ == "schedules"@,
        r@[3]@ == "projects"@,
        r@[4]@ == "categories"@,
{
    vec!["audit_log", "memos", "schedules", "projects", "categories"]
}

/// The project a memo update names: `--detach` clears it, `--project`
/// sets it, neither leaves it.
pub fn memo_project_patch(detach: bool, project: Option<i64>) -> (r: Option<Option<i64>>)
    ensures
        detach ==> r == Some(None::<i64>),
        !detach ==> r == match project {
            Some(p) => Some(Some(p)),
            None => None::<Option<i64>>,
        },
{
    if detach {
        Some(None)
    } else {
        match project {
            Some(p) => Some(Some(p)),
            None => None,
        }
    }
}

/// The tags a memo update names: `--clear-tags` removes them all, `--tag`
/// replaces them, neither leaves them.
pub fn memo_tags_patch(clear_tags: bool, tags: Vec<String>) -> (r: Option<Vec<String>>)
    ensures
        clear_tags ==> (r matches Some(v) && v@.len() == 0),
        !clear_tags && tags@.len() > 0 ==> (r matches Some(v) && v@ == tags@),
        !clear_tags && tags@.len() == 0 ==> r is None,
{
    if clear_tags {
        Some(Vec::new())
    } else if tags.len() > 0 {
        Some(tags)
    } else {
        None
    }
}

/// `i` is where the first category named `name` stands.
pub open spec fn first_named(all: Seq<Category>, name: Seq<char>, i: int) -> bool {
    &&& 0 <= i < all.len()
    &&& all[i].name@ == name
    &&& forall|j: int| 0 <= j < i ==> (#[trigger] all[j]).name@ != name
}

/// The id of the category a rename starts from, found by its name (the
/// first that has it); an error naming it when there is none.
pub fn find_category_id(all: &Vec<Category>, name: &str) -> (r: Result<i64, String>)
    ensures
        r matches Ok(id) ==> exists|i: int| first_named(all@, name@, i) && id == all@[i].id,
        r is Err ==> forall|i: int| 0 <= i < all@.len() ==> (#[trigger] all@[i]).name@ != name@,
        r matches Err(e) ==> e@ == "카테고리를 찾을 수 없음: '"@ + name@ + "'"@,
{
    let mut i: usize = 0;
    while i < all.len()
        invariant
            i <= all.len(),
            forall|j: int| 0 <= j < i ==> (#[trigger] all@[j]).name@ != name@,
        decreases all.len() - i,
    {
        if text::str_eq(all[i].name.as_str(), name) {
            assert(first_named(all@, name@, i as int));
            return Ok(all[i].id);
        }
        i += 1;
    }
    let mut e = String::from_str("카테고리를 찾을 수 없음: '");
    e.append(name);
    e.append("'");
    Err(e)
}

/// The message when a category still in use is deleted.
pub fn category_in_use_message(count: i64, name: &str) -> (r: String)
    ensures
        r@ == "카테고리 사용 중 ("@ + text::int_decimal(count as int) + "개 프로젝트): "@ + name@,
{
    let mut r = String::from_str("카테고리 사용 중 (");
    r.append(text::i64_to_string(count).as_str());
    r.append("개 프로젝트): ");
    r.append(name);
    r
}

/// `"project 7 not found"` and the like.
pub fn not_found_message(what: &str, id: i64) -> (r: String)
    ensures
        r@ == what@ + " "@ + text::int_decimal(id as int) + " not found"@,
{
    let mut r = String::from_str(what);
    r.append(" ");
    r.append(text::i64_to_string(id).as_str());
    r.append(" not found");
    r
}

/// Whether a search hit of `kind` is shown: every kind when no scope is
/// given, else the kinds the scope names.
pub fn scope_allows(scope: &Vec<String>, kind: &str) -> (r: bool)
    ensures
        r == (scope@.len() == 0 || text::strs_view(scope@).contains(kind@)),
{
    if scope.len() == 0 {
        return true;
    }
    crate::projects::contains_str(scope, kind)
}

} // verus!
