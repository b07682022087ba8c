//! Application settings kept in the `settings` key/value table: the OpenAI
//! key (never handed back to the UI), the backup folder and autostart.

use vstd::prelude::*;
use crate::text;

verus! {

/// Key of the OpenAI API key.
pub const K_OPENAI_KEY: &'static str = "ai.openai_api_key";

/// Key of the UI scale.
pub const K_UI_SCALE: &'static str = "ui.scale";

/// Key of the configured backup folder.
pub const K_BACKUP_DIR: &'static str = "backup.dir";

/// Key of the autostart flag.
pub const K_AUTOSTART: &'static str = "autostart.enabled";

/// What the UI may see of the AI settings: whether a key is on file.
#[derive(Debug, Clone, PartialEq, Eq, Structural)]
pub struct AiSettingsView {
    pub has_openai_key: bool,
}

/// The AI settings with the key itself, for the backend only.
#[derive(Debug, Clone, PartialEq)]
pub struct AiSettingsFull {
    pub openai_api_key: Option<String>,
}

impl AiSettingsFull {
    /// The settings read back from storage: an empty stored key means none.
    pub fn from_stored(key_raw: String) -> (r: AiSettingsFull)
        ensures
            text::opt_view(r.openai_api_key) == key_on_file(key_raw@),
            key_raw@.len() > 0 ==> r.openai_api_key == Some(key_raw),
    {
        if key_raw.as_str().unicode_len() == 0 {
            AiSettingsFull { openai_api_key: None }
        } else {
            AiSettingsFull { openai_api_key: Some(key_raw) }
        }
    }

    /// The view safe to hand to the UI: the key stripped, only whether a
    /// non-empty one is on file.
    pub fn redact(&self) -> (r: AiSettingsView)
        ensures
            r.has_openai_key == shows_key(text::opt_view(self.openai_api_key)),
    {
        AiSettingsView {
            has_openai_key: match &self.openai_api_key {
                Some(s) => s.as_str().unicode_len() != 0,
                None => false,
            },
        }
    }
}

/// The key a stored value stands for: none when the value is empty.
pub open spec fn key_on_file(stored: Seq<char>) -> Option<Seq<char>> {
    if stored.len() == 0 {
        None
    } else {
        Some(stored)
    }
}

/// Whether the redacted view reports a key.
pub open spec fn shows_key(key: Option<Seq<char>>) -> bool {
    match key {
        Some(k) => k.len() > 0,
        None => false,
    }
}

/// The stored value after a save: the new key trimmed, or the old value.
pub open spec fn stored_after_save(stored: Seq<char>, written: Option<Seq<char>>) -> Seq<char> {
    match written {
        Some(k) => k,
        None => stored,
    }
}

/// A request to change the AI settings: `Some("")` clears the key,
/// `Some(key)` replaces it, `None` keeps it.
pub struct SaveAiSettingsInput {
    pub openai_api_key: Option<String>,
}

/// What a save request writes: the given key trimmed, or nothing.
pub open spec fn written_key(requested: Option<Seq<char>>) -> Option<Seq<char>> {
    match requested {
        Some(k) => Some(text::trim_spec(k)),
        None => None,
    }
}

/// What saving writes under `K_OPENAI_KEY`, if anything: the given key
/// trimmed of the white space a paste carries.
pub fn key_to_store(input: &SaveAiSettingsInput) -> (r: Option<String>)
    ensures
        text::opt_view(r) == written_key(text::opt_view(input.openai_api_key)),
{
    match &input.openai_api_key {
        Some(k) => Some(text::trim(k.as_str())),
        None => None,
    }
}

/// Saving and reading back: after a save the UI is told a key is on file
/// exactly when the saved key is not blank; a request without a key
/// leaves what the UI is told as it was.
pub proof fn lemma_save_then_view(stored: Seq<char>, requested: Option<Seq<char>>)
    ensures
        shows_key(key_on_file(stored_after_save(stored, written_key(requested)))) == match requested {
            Some(k) => text::trim_spec(k).len() > 0,
            None => shows_key(key_on_file(stored)),
        },
{
}

/// Where backups go: the configured folder, or (when none is configured)
/// the `backups` folder of the application data.
#[derive(Debug, Clone, PartialEq)]
pub enum BackupDir {
    AppDataDefault,
    Configured(String),
}

/// The backup folder for the stored `backup.dir` value.
pub fn backup_dir_choice(configured: String) -> (r: BackupDir)
    ensures
        configured@.len() == 0 ==> r is AppDataDefault,
        configured@.len() > 0 ==> r == BackupDir::Configured(configured),
{
    if configured.as_str().unicode_len() == 0 {
        BackupDir::AppDataDefault
    } else {
        BackupDir::Configured(configured)
    }
}

/// A new backup folder as stored: the given path trimmed, which must not be
/// empty.
pub fn clean_backup_dir(path: &str) -> (r: Result<String, String>)
    ensures
        text::trim_spec(path@).len() == 0 ==> (r matches Err(e) && e@ == "백업 위치가 비어 있습니다"@),
        text::trim_spec(path@).len() > 0 ==> (r matches Ok(p) && p@ == text::trim_spec(path@)),
{
    let t = text::trim(path);
    if t.as_str().unicode_len() == 0 {
        Err(String::from_str("백업 위치가 비어 있습니다"))
    } else {
        Ok(t)
    }
}

/// The stored autostart flag.
pub fn autostart_value(enabled: bool) -> (r: &'static str)
    ensures
        r@ == if enabled { "1"@ } else { "0"@ },
{
    if enabled {
        "1"
    } else {
        "0"
    }
}

/// Whether the app was started hidden (as autostart launches it): one of its arguments is
/// `--hidden`.
pub fn launched_hidden(args: &Vec<String>) -> (r: bool)
    ensures
        r == text::strs_view(args@).contains("--hidden"@),
{
    crate::projects::contains_str(args, "--hidden")
}

} // verus!
