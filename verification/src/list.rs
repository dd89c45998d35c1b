//! The listing workflow: which packages, and how much of each.

use vstd::prelude::*;
use crate::db::PackageDB;
use crate::opts::ListArgs;

verus! {

/// What a listing shows: just the count, one queried package (by its
/// position in the database), a miss, or every package.
#[derive(Clone, Copy, PartialEq, Eq, Structural, Debug)]
pub enum ListSelection {
    Total(usize),
    Query(usize),
    NotFound,
    All,
}

/// What the selection must be: the count alone when only the total
/// is asked for; the queried package's record position, or a miss;
/// otherwise everything.
pub open spec fn list_selection_is(r: ListSelection, db: PackageDB, args: ListArgs) -> bool {
    if args.total_count {
        r == ListSelection::Total(db.packages@.len() as usize)
    } else {
        match args.query {
            Some(q) => if db.spec_contains(q@) {
                r matches ListSelection::Query(i) && 0 <= i < db.packages@.len()
                    && db.packages@[i as int].0@ == q@
            } else {
                r == ListSelection::NotFound
            },
            None => r == ListSelection::All,
        }
    }
}

/// Selects what to list. The caller renders the records the
/// selection points at, tersely or verbosely as asked.
pub fn list_packages(db: &PackageDB, list_args: &ListArgs) -> (r: ListSelection)
    requires
        db.wf(),
    ensures
        list_selection_is(r, *db, *list_args),
{
    if list_args.total_count {
        return ListSelection::Total(db.count());
    }
    match &list_args.query {
        Some(q) => match db.find(q.as_str()) {
            Some(i) => ListSelection::Query(i),
            None => ListSelection::NotFound,
        },
        None => ListSelection::All,
    }
}

} // verus!
