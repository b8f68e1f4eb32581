//! Snapshots of a directory tree: the change report of the synchronisation
//! engine read into typed events, the commit records and their order, and
//! the steps of creating, comparing and restoring a snapshot.

pub mod cli;
pub mod commit;
pub mod config;
pub mod decimal;
pub mod files;
pub mod nesting;
pub mod order;
pub mod paths;
pub mod report;
pub mod rsync;
pub mod status;
pub mod text;
pub mod views;
