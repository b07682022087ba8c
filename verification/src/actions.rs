//! Actions on a project folder and the spreadsheet import command: their
//! checks, messages and results.

use vstd::prelude::*;

verus! {

/// The message when a project folder is gone.
pub fn path_missing_message(path: &str) -> (r: String)
    ensures
        r@ == "Path does not exist: "@ + path@,
{
    let mut r = String::from_str("Path does not exist: ");
    r.append(path);
    r
}

/// The outcome of opening a folder in Terminal: possible only when the
/// system Terminal application was found.
pub fn open_in_terminal_impl(terminal_found: bool) -> (r: Result<(), String>)
    ensures
        terminal_found ==> r is Ok,
        !terminal_found ==> (r matches Err(e) && e@ == "Terminal.app (com.apple.Terminal) not found"@),
{
    if terminal_found {
        Ok(())
    } else {
        Err(String::from_str("Terminal.app (com.apple.Terminal) not found"))
    }
}

/// The message on systems where folders cannot be opened in Terminal.
pub fn terminal_unsupported_message() -> (r: String)
    ensures
        r@ == "open_in_terminal is only supported on macOS"@,
{
    String::from_str("open_in_terminal is only supported on macOS")
}

/// The tables a spreadsheet import empties first when asked to.
pub fn excel_clear_tables() -> (r: Vec<&'static str>)
    ensures
        r@.len() == 4,
        r@[0]@ == "memos"@,
        r@[1]@ == "schedules"@,
        r@[2]@ == "clients"@,
        r@[3]@ == "projects"@,
{
    vec!["memos", "schedules", "clients", "projects"]
}

/// What a spreadsheet import reports.
#[derive(Debug, Clone, PartialEq, Eq)]
pub struct ImportResult {
    pub projects_imported: usize,
}

} // verus!
