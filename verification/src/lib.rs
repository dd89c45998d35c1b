//! A verified package synchronization engine.
//!
//! The library turns a package manifest plus prior installation state into
//! a consistent on-disk plan: which repository operations to run, which
//! files to copy where, and which database record to write. All decisions
//! are made here, under contracts; the surrounding binary performs the
//! network and filesystem actions the plans describe.

pub mod checkupdate;
pub mod clearcache;
pub mod db;
pub mod globpat;
pub mod install;
pub mod layout;
pub mod list;
pub mod manifest;
pub mod materialize;
pub mod opts;
pub mod paths;
pub mod purgecache;
pub mod run_checks;
pub mod search;
pub mod sync;
pub mod uninstall;
pub mod update;
