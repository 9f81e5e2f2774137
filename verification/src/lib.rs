//! Backup freshness detection: which mount backs a directory, which of its
//! entries are backups, when each was made, and how old the newest one is.

pub mod backups;
pub mod calendar;
pub mod date;
pub mod decimal;
pub mod diagnostics;
pub mod freshness;
pub mod mounts;
pub mod pattern;
pub mod selection;
pub mod text;
pub mod timestamp;
