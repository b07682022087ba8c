//! Opening the database: the decisions of its migrations and of the
//! recovery from a corrupt file. The SQL runs in the store layer.

use vstd::prelude::*;
use crate::text;

verus! {

/// The name a database file without one is known by.
pub const DEFAULT_DB_FILE: &'static str = "data.db";

/// The name a corrupt database file is moved to: its own name (or
/// `data.db`), `.corrupt-` and the time stamp.
pub fn quarantine_name(file_name: Option<String>, stamp: &str) -> (r: String)
    ensures
        r@ == match file_name {
            Some(f) => f@,
            None => DEFAULT_DB_FILE@,
        } + ".corrupt-"@ + stamp@,
{
    let mut r = match file_name {
        Some(f) => f,
        None => String::from_str(DEFAULT_DB_FILE),
    };
    r.append(".corrupt-");
    r.append(stamp);
    r
}

/// The name of the side file with `suffix` (`-wal`, `-shm`) of a database
/// file, and the name it is moved to along with a corrupt database.
pub fn sidecar_names(file_name: Option<String>, suffix: &str, stamp: &str) -> (r: (String, String))
    ensures
        r.0@ == match file_name {
            Some(f) => f@,
            None => DEFAULT_DB_FILE@,
        } + suffix@,
        r.1@ == r.0@ + ".corrupt-"@ + stamp@,
{
    let mut side = match file_name {
        Some(f) => f,
        None => String::from_str(DEFAULT_DB_FILE),
    };
    side.append(suffix);
    let mut moved = side.clone();
    moved.append(".corrupt-");
    moved.append(stamp);
    (side, moved)
}

/// The side files that go along with a corrupt database.
pub fn sidecar_suffixes() -> (r: Vec<&'static str>)
    ensures
        r@.len() == 2,
        r@[0]@ == "-wal"@,
        r@[1]@ == "-shm"@,
{
    vec!["-wal", "-shm"]
}

/// Which reminder columns an older `schedules` table lacks, given its
/// column names: the five-minute reminder, then the reminder at the start.
pub fn missing_reminder_columns(columns: &Vec<String>) -> (r: (bool, bool))
    ensures
        r.0 == !text::strs_view(columns@).contains("remind_before_5min"@),
        r.1 == !text::strs_view(columns@).contains("remind_at_start"@),
{
    (
        !crate::projects::contains_str(columns, "remind_before_5min"),
        !crate::projects::contains_str(columns, "remind_at_start"),
    )
}

/// Whether a full-text index is rebuilt from its table: the table has rows
/// and the index has none.
pub fn needs_backfill(table_rows: i64, index_rows: i64) -> (r: bool)
    ensures
        r == (table_rows > 0 && index_rows == 0),
{
    table_rows > 0 && index_rows == 0
}

} // verus!
