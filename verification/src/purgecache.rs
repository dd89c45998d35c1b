//! The cache-purging workflow: remove cache subdirectories that no
//! database record refers to.
//!
//! A cache subdirectory corresponds to a record when its name equals
//! the final segment of that record's cache path; the rest are
//! orphans and are removed. Records themselves are never touched.

use vstd::prelude::*;
use vstd::seq_lib::group_seq_lib_default;
use crate::db::PackageDB;
use crate::manifest::str_eq;
use crate::paths::basename_of;
use crate::paths::basename;

verus! {

broadcast use group_seq_lib_default;

/// Whether some record's cache path has `d` as its directory name.
pub open spec fn db_references_dir(db: PackageDB, d: Seq<char>) -> bool {
    exists|i: int|
        0 <= i < db.packages@.len() && basename_of(db.packages@[i].1.repo_fs_path@) == d
}

/// The directories purging removes: those no record refers to.
pub open spec fn orphan_pred(db: PackageDB) -> spec_fn(Seq<char>) -> bool {
    |d: Seq<char>| !db_references_dir(db, d)
}

/// Whether some record's cache path has `dir` as its directory name.
fn is_referenced(db: &PackageDB, dir: &str) -> (r: bool)
    ensures
        r == db_references_dir(*db, dir@),
{
    let mut i: usize = 0;
    while i < db.packages.len()
        invariant
            i <= db.packages@.len(),
            forall|j: int|
                0 <= j < i ==> basename_of(db.packages@[j].1.repo_fs_path@) != dir@,
        decreases db.packages@.len() - i,
    {
        let b = basename(db.packages[i].1.repo_fs_path.as_str());
        if str_eq(b.as_str(), dir) {
            return true;
        }
        i = i + 1;
    }
    false
}

/// Selects, from the names of the cache root's subdirectories, the
/// orphans: those whose name no database record's cache path carries.
/// Exactly these are removed; everything referenced stays.
pub fn purge_cache(db: &PackageDB, cache_dirs: &Vec<String>) -> (r: Vec<String>)
    ensures
        r.deep_view() == cache_dirs.deep_view().filter(orphan_pred(*db)),
{
    let ghost pred = orphan_pred(*db);
    let ghost dv = cache_dirs.deep_view();
    let mut out: Vec<String> = Vec::new();
    let mut i: usize = 0;
    proof {
        assert(dv.take(0) =~= Seq::<Seq<char>>::empty());
        assert(out.deep_view() =~= dv.take(0).filter(pred));
    }
    while i < cache_dirs.len()
        invariant
            i <= cache_dirs.len(),
            dv == cache_dirs.deep_view(),
            pred == orphan_pred(*db),
            out.deep_view() =~= dv.take(i as int).filter(pred),
        decreases cache_dirs.len() - i,
    {
        let ghost prefix = dv.take(i as int);
        let d: &String = &cache_dirs[i];
        proof {
            assert(dv[i as int] == d@);
            assert(dv.take(i + 1) =~= prefix.push(d@));
            prefix.lemma_filter_push(d@, pred);
        }
        if !is_referenced(db, d.as_str()) {
            let ghost pre = out.deep_view();
            out.push(d.clone());
            proof {
                assert(out.deep_view() =~= pre.push(d@));
            }
        }
        i = i + 1;
    }
    proof {
        assert(dv.take(cache_dirs.len() as int) =~= dv);
    }
    out
}

} // verus!
