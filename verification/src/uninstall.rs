//! The uninstall workflow: delete what was recorded, then forget the
//! record.
//!
//! The record's `installed_files` list is the only authority on what
//! may be removed. The caller deletes each returned path that still
//! exists — files already missing are tolerated — and keeps the
//! database exactly as returned.

use vstd::prelude::*;
use crate::db::PackageDB;
use crate::manifest::PmError;

verus! {

/// Removes the record of `package_name` and returns every path its
/// last materialization wrote, for the caller to delete. An unknown
/// name is `NotInstalled`, and the database is not touched.
pub fn uninstall_package(db: &mut PackageDB, package_name: &str) -> (r: Result<
    Vec<String>,
    PmError,
>)
    requires
        old(db).wf(),
    ensures
        final(db).wf(),
        match r {
            Ok(files) => {
                &&& old(db).spec_contains(package_name@)
                &&& files.deep_view() == old(db).spec_get(
                    package_name@,
                ).installed_files.deep_view()
                &&& final(db).as_map() == old(db).as_map().remove(package_name@)
            },
            Err(e) => {
                &&& e == PmError::NotInstalled
                &&& !old(db).spec_contains(package_name@)
                &&& *final(db) == *old(db)
            },
        },
{
    match db.remove(package_name) {
        Some(pkg) => Ok(pkg.installed_files),
        None => Err(PmError::NotInstalled),
    }
}

} // verus!
