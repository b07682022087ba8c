//! The data-folder wizard: what the app reports about the folder the user
//! linked, from the saved bookmark and what resolving it gave.

use vstd::prelude::*;

verus! {

/// The defaults key of the saved folder bookmark.
pub const BOOKMARK_KEY: &'static str = "hearth.dataDirBookmark";

/// The defaults key of the "remind me later" mark.
pub const DISMISSED_KEY: &'static str = "hearth.migrationDismissed";

/// What the wizard is told about the data folder.
#[derive(Debug, Clone, PartialEq, Eq)]
pub struct DataFolderStatus {
    pub has_bookmark: bool,
    pub resolved_path: Option<String>,
    pub stale: bool,
    pub dismissed: bool,
}

/// The folder the user picked.
#[derive(Debug, Clone, PartialEq, Eq)]
pub struct ChooseFolderResponse {
    pub resolved_path: String,
}

/// What resolving the saved bookmark gave.
#[derive(Debug, Clone, PartialEq, Eq)]
pub enum Resolution {
    /// The folder's path, and whether the bookmark should be renewed.
    Resolved { path: String, stale: bool },
    Failed,
}

/// What to do with the saved bookmark after the status was read.
#[derive(Debug, Clone, PartialEq, Eq)]
pub enum BookmarkFollowUp {
    Keep,
    /// Save a fresh bookmark of this path (best effort).
    Renew(String),
    /// Forget the bookmark, so the wizard asks again.
    Forget,
}

/// The status of the data folder, given the "later" mark and the saved
/// bookmark (none when no bookmark is saved) with what resolving it gave.
/// A stale bookmark still reports its path and is renewed; one that does
/// not resolve counts as none and is forgotten.
pub fn get_status(dismissed: bool, bookmark: Option<Resolution>) -> (r: (
    DataFolderStatus,
    BookmarkFollowUp,
))
    ensures
        r.0.dismissed == dismissed,
        match bookmark {
            None => !r.0.has_bookmark && r.0.resolved_path is None && !r.0.stale && r.1
                == BookmarkFollowUp::Keep,
            Some(Resolution::Failed) => !r.0.has_bookmark && r.0.resolved_path is None
                && !r.0.stale && r.1 == BookmarkFollowUp::Forget,
            Some(Resolution::Resolved { path, stale }) => r.0.has_bookmark && r.0.resolved_path
                == Some(path) && r.0.stale == stale && (stale ==> r.1 == BookmarkFollowUp::Renew(
                path,
            )) && (!stale ==> r.1 == BookmarkFollowUp::Keep),
        },
{
    match bookmark {
        None => (
            DataFolderStatus { has_bookmark: false, resolved_path: None, stale: false, dismissed },
            BookmarkFollowUp::Keep,
        ),
        Some(Resolution::Failed) => (
            DataFolderStatus { has_bookmark: false, resolved_path: None, stale: false, dismissed },
            BookmarkFollowUp::Forget,
        ),
        Some(Resolution::Resolved { path, stale }) => {
            let follow = if stale {
                BookmarkFollowUp::Renew(path.clone())
            } else {
                BookmarkFollowUp::Keep
            };
            (
                DataFolderStatus { has_bookmark: true, resolved_path: Some(path), stale, dismissed },
                follow,
            )
        },
    }
}

/// Why a folder choice produced no folder.
#[derive(Debug, Clone, PartialEq, Eq)]
pub enum ChoiceOutcome {
    Cancelled,
    NoUrl,
    /// The panel gave this path.
    Picked(String),
}

/// The answer to a folder choice: the picked path, or the error the
/// wizard shows (`user_cancelled` when the user closed the panel).
pub fn choose_folder_result(outcome: ChoiceOutcome) -> (r: Result<ChooseFolderResponse, String>)
    ensures
        match outcome {
            ChoiceOutcome::Cancelled => r matches Err(e) && e@ == "user_cancelled"@,
            ChoiceOutcome::NoUrl => r matches Err(e) && e@ == "NSOpenPanel returned no URL"@,
            ChoiceOutcome::Picked(p) => r matches Ok(c) && c.resolved_path == p,
        },
{
    match outcome {
        ChoiceOutcome::Cancelled => Err(String::from_str("user_cancelled")),
        ChoiceOutcome::NoUrl => Err(String::from_str("NSOpenPanel returned no URL")),
        ChoiceOutcome::Picked(p) => Ok(ChooseFolderResponse { resolved_path: p }),
    }
}

} // verus!
