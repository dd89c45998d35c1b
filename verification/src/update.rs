//! The update workflow: skip themes, compare revisions, and when the
//! manifest moved, re-synchronize, re-build and re-materialize.
//!
//! One package advances through `update_package` decisions: a theme
//! is skipped outright, before any fetch; otherwise the caller is
//! told to fetch the stored manifest, and the advertised revision
//! decides between a no-op and a full refresh. `update_file` finishes
//! a refresh once the tree is synchronized.

use vstd::prelude::*;
use crate::db::InstalledPackage;
use crate::db::PackageDB;
use crate::layout::managed_target_root_of;
use crate::layout::managed_target_root;
use crate::manifest::PackageKind;
use crate::manifest::PmError;
use crate::materialize::CopyAction;
use crate::materialize::copies_view;
use crate::materialize::plan_spec;
use crate::materialize::materialize_plan;
use crate::sync::SyncMethod;
use crate::sync::sync_plan_is;
use crate::sync::plan_sync;
use crate::sync::update_needed;

verus! {

/// What updating one package requires next.
pub enum UpdateDecision {
    /// The package is a theme: updating it is unsafe and is skipped.
    SkipTheme,
    /// Fetch the package's own manifest and come back with the
    /// revision it advertises.
    NeedManifest { manifest_url: String },
    /// The stored revision equals the advertised one: nothing to do.
    UpToDate,
    /// The manifest moved: synchronize, run the build command, copy
    /// the files again, and store the new revision.
    Refresh { sync: SyncMethod, build: Option<String>, target_base_dir: String, new_hash: String },
}

/// What the decision for one package must be: a theme is always a
/// skip, before any fetch; otherwise the stored manifest is fetched,
/// and the advertised revision decides — equal to the stored one is
/// a no-op, different is a full refresh at the advertised revision.
pub open spec fn update_decision_is(
    r: UpdateDecision,
    pkg: InstalledPackage,
    package_name: Seq<char>,
    home: Seq<char>,
    repo_exists: bool,
    fetched_hash: Option<String>,
) -> bool {
    if pkg.pkg_type == PackageKind::Theme {
        r == UpdateDecision::SkipTheme
    } else {
        match fetched_hash {
            None => r matches UpdateDecision::NeedManifest { manifest_url } && manifest_url@
                == pkg.manifest_url@,
            Some(h) => if h@ == pkg.installed_hash@ {
                r == UpdateDecision::UpToDate
            } else {
                r matches UpdateDecision::Refresh { sync, build, target_base_dir, new_hash }
                    && sync_plan_is(sync, pkg.upstream_src@, pkg.repo_fs_path@, h@, repo_exists, 1)
                    && build == pkg.build_command && target_base_dir@ == managed_target_root_of(
                    pkg.pkg_type,
                    home,
                    package_name,
                ) && new_hash@ == h@
            },
        }
    }
}

/// Decides what updating `package_name` requires, given its record
/// and — once fetched — the revision its manifest now advertises.
pub fn update_package(
    pkg: &InstalledPackage,
    package_name: &str,
    home: &str,
    repo_exists: bool,
    fetched_hash: &Option<String>,
) -> (r: UpdateDecision)
    ensures
        update_decision_is(r, *pkg, package_name@, home@, repo_exists, *fetched_hash),
{
    if pkg.pkg_type == PackageKind::Theme {
        return UpdateDecision::SkipTheme;
    }
    match fetched_hash {
        None => UpdateDecision::NeedManifest { manifest_url: pkg.manifest_url.clone() },
        Some(h) => {
            if !update_needed(pkg.installed_hash.as_str(), h.as_str()) {
                UpdateDecision::UpToDate
            } else {
                let sync = plan_sync(
                    pkg.upstream_src.as_str(),
                    pkg.repo_fs_path.as_str(),
                    h.as_str(),
                    repo_exists,
                    1,
                );
                let target_base_dir = managed_target_root(pkg.pkg_type, home, package_name);
                UpdateDecision::Refresh {
                    sync,
                    build: pkg.build_command.clone(),
                    target_base_dir,
                    new_hash: h.clone(),
                }
            }
        },
    }
}

/// Finishes a refresh once the tree is synchronized and built: plans
/// the copies from the record's retained file entries and overwrites
/// the stored revision. A theme record — which should never reach
/// this step — is left untouched with nothing to copy.
pub fn update_file(
    pkg: &mut InstalledPackage,
    package_name: &str,
    commit_hash: String,
    home: &str,
    tree: &Vec<String>,
) -> (r: Result<Vec<CopyAction>, PmError>)
    ensures
        old(pkg).pkg_type == PackageKind::Theme ==> (*final(pkg) == *old(pkg) && (r matches Ok(v)
            && v@.len() == 0)),
        old(pkg).pkg_type != PackageKind::Theme ==> match r {
            Ok(actions) => {
                &&& plan_spec(
                    old(pkg).copy_files@,
                    tree.deep_view(),
                    managed_target_root_of(old(pkg).pkg_type, home@, package_name@),
                ) == Ok::<Seq<(Seq<char>, Seq<char>)>, PmError>(copies_view(actions@))
                &&& *final(pkg) == (InstalledPackage { installed_hash: commit_hash, ..*old(pkg) })
            },
            Err(e) => {
                &&& plan_spec(
                    old(pkg).copy_files@,
                    tree.deep_view(),
                    managed_target_root_of(old(pkg).pkg_type, home@, package_name@),
                ) == Err::<Seq<(Seq<char>, Seq<char>)>, PmError>(e)
                &&& *final(pkg) == *old(pkg)
            },
        },
{
    if pkg.pkg_type == PackageKind::Theme {
        return Ok(Vec::new());
    }
    let target = managed_target_root(pkg.pkg_type, home, package_name);
    match materialize_plan(&pkg.copy_files, tree, target.as_str()) {
        Ok(actions) => {
            pkg.installed_hash = commit_hash;
            Ok(actions)
        },
        Err(e) => Err(e),
    }
}

/// Whether the named package needs an update: compares the revision
/// its manifest now advertises against the stored one. The second
/// component hands the advertised revision back for the refresh.
pub fn is_update_needed_for(db: &PackageDB, package_name: &str, upstream_hash: &String) -> (r:
    Result<(bool, String), PmError>)
    requires
        db.wf(),
    ensures
        match r {
            Ok(p) => {
                &&& db.spec_contains(package_name@)
                &&& p.0 == (upstream_hash@ != db.spec_get(package_name@).installed_hash@)
                &&& p.1@ == upstream_hash@
            },
            Err(e) => e == PmError::NotInstalled && !db.spec_contains(package_name@),
        },
{
    match db.get(package_name) {
        Some(pkg) => {
            let needed = update_needed(pkg.installed_hash.as_str(), upstream_hash.as_str());
            Ok((needed, upstream_hash.clone()))
        },
        None => Err(PmError::NotInstalled),
    }
}

} // verus!
