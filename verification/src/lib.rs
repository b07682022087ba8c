//! Hearth workspace logic: the rules behind projects, memos, categories,
//! schedules, reminders, shortcuts, backups and the AI command palette.

pub mod text;

pub mod audit;
pub mod models;
pub mod sql;
pub mod store;

pub mod categories;
pub mod projects;
pub mod memos;
pub mod schedules;
pub mod notify;
pub mod scan;

pub mod excel;
pub mod export;
pub mod backup;

pub mod settings;
pub mod shortcut;
pub mod datafolder;
pub mod watch;
pub mod actions;

pub mod agent;
pub mod cli;
