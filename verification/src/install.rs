//! The install workflow: resolve, synchronize, build, materialize,
//! record.
//!
//! The decisions live here; the surrounding binary fetches the
//! manifest, runs the planned repository operation and the optional
//! build command, copies the planned files, and stores the database.

use vstd::prelude::*;
use crate::db::InstalledPackage;
use crate::db::PackageDB;
use crate::layout::cache_root_of;
use crate::layout::lemma_repo_path_contained;
use crate::paths::is_strictly_under;
use crate::layout::manifest_url_of;
use crate::layout::repo_fs_path_of;
use crate::layout::repo_fs_path;
use crate::layout::target_root_of;
use crate::layout::target_root;
use crate::layout::manifest_url;
use crate::manifest::PackageKind;
use crate::manifest::PackageMeta;
use crate::manifest::PmError;
use crate::manifest::str_eq;
use crate::sync::SyncMethod;
use crate::sync::sync_plan_is;
use crate::sync::plan_sync;

verus! {

/// Everything the caller must do before files can be copied: where
/// the synchronized tree lives, which repository operation reaches
/// the pinned commit, the optional build command, and the target
/// root for this package's kind.
#[derive(Debug)]
pub struct InstallPlan {
    pub repo_fs_path: String,
    pub sync: SyncMethod,
    pub build: Option<String>,
    pub target_base_dir: String,
}

/// What the plan of an install must say, given the manifest and the
/// surroundings.
pub open spec fn install_plan_wf(
    r: InstallPlan,
    meta: PackageMeta,
    home: Seq<char>,
    cwd: Seq<char>,
    repo_exists: bool,
) -> bool {
    &&& r.repo_fs_path@ == repo_fs_path_of(home, meta.src@)
    &&& sync_plan_is(
        r.sync,
        meta.src@,
        repo_fs_path_of(home, meta.src@),
        meta.commit_hash@,
        repo_exists,
        1,
    )
    &&& r.build == meta.build
    &&& r.target_base_dir@ == target_root_of(meta.pkg_type, home, cwd, meta.name@)
}

/// Plans the installation of `package_name` from its manifest: the
/// manifest must name the requested package; the tree is cloned when
/// absent and fetched-and-reset when present; the target root is
/// chosen by the package's kind.
pub fn install_package(
    package_name: &str,
    meta: &PackageMeta,
    home: &str,
    cwd: &str,
    repo_exists: bool,
) -> (r: Result<InstallPlan, PmError>)
    ensures
        match r {
            Ok(plan) => {
                &&& meta.name@ == package_name@
                &&& install_plan_wf(plan, *meta, home@, cwd@, repo_exists)
                &&& is_strictly_under(plan.repo_fs_path@, cache_root_of(home@))
            },
            Err(e) => e == PmError::MalformedManifest && meta.name@ != package_name@,
        },
{
    if !str_eq(meta.name.as_str(), package_name) {
        return Err(PmError::MalformedManifest);
    }
    let path = repo_fs_path(home, meta.src.as_str());
    let sync = plan_sync(meta.src.as_str(), path.as_str(), meta.commit_hash.as_str(), repo_exists, 1);
    let target_base_dir = target_root(meta.pkg_type, home, cwd, meta.name.as_str());
    proof {
        lemma_repo_path_contained(home@, meta.src@);
    }
    Ok(InstallPlan { repo_fs_path: path, sync, build: meta.build.clone(), target_base_dir })
}

/// Turns the outcome of the optional build command into the
/// operation's result: a non-zero exit fails the whole operation.
pub fn build_outcome(build_succeeded: bool) -> (r: Result<(), PmError>)
    ensures
        build_succeeded <==> r is Ok,
        !build_succeeded ==> r == Err::<(), PmError>(PmError::BuildFailed),
{
    if build_succeeded {
        Ok(())
    } else {
        Err(PmError::BuildFailed)
    }
}

/// The record a successful install stores for a non-theme package.
pub open spec fn install_record(
    meta: PackageMeta,
    repo_fs_path: Seq<char>,
    installed_files: Seq<Seq<char>>,
    pkg: InstalledPackage,
) -> bool {
    &&& pkg.repo_fs_path@ == repo_fs_path
    &&& pkg.installed_files.deep_view() == installed_files
    &&& pkg.copy_files@ == meta.files@
    &&& pkg.pkg_type == meta.pkg_type
    &&& pkg.upstream_src@ == meta.src@
    &&& pkg.installed_hash@ == meta.commit_hash@
    &&& pkg.manifest_url@ == manifest_url_of(meta.name@)
    &&& pkg.build_command == meta.build
}

/// Upserts the record of a freshly installed package — unless its
/// kind is `theme`, which is never tracked: the database is then left
/// exactly as it was.
pub fn record_install(
    db: &mut PackageDB,
    meta: &PackageMeta,
    repo_fs_path: String,
    installed_files: Vec<String>,
)
    requires
        old(db).wf(),
    ensures
        final(db).wf(),
        meta.pkg_type == PackageKind::Theme ==> *final(db) == *old(db),
        meta.pkg_type != PackageKind::Theme ==> exists|pkg: InstalledPackage|
            #[trigger] install_record(*meta, repo_fs_path@, installed_files.deep_view(), pkg)
                && final(db).as_map() == old(db).as_map().insert(meta.name@, pkg),
{
    if meta.pkg_type == PackageKind::Theme {
        return ;
    }
    let url = manifest_url(meta.name.as_str());
    let pkg = InstalledPackage {
        repo_fs_path,
        installed_files,
        copy_files: meta.files.clone(),
        pkg_type: meta.pkg_type,
        upstream_src: meta.src.clone(),
        installed_hash: meta.commit_hash.clone(),
        manifest_url: url,
        build_command: meta.build.clone(),
    };
    let ghost p = pkg;
    proof {
        assert(p.copy_files@ =~= meta.files@);
        assert(install_record(*meta, repo_fs_path@, installed_files.deep_view(), p));
    }
    db.upsert(meta.name.clone(), pkg);
}

/// Repeating an install of the same package with an unchanged
/// manifest and unchanged revision is idempotent: the copy plan is a
/// function of manifest and tree alone, so the second run stores the
/// same record, and the database ends exactly where the first run
/// left it.
pub proof fn lemma_reinstall_idempotent(
    m: Map<Seq<char>, InstalledPackage>,
    name: Seq<char>,
    pkg: InstalledPackage,
)
    ensures
        m.insert(name, pkg).insert(name, pkg) == m.insert(name, pkg),
{
    assert(m.insert(name, pkg).insert(name, pkg) =~= m.insert(name, pkg));
}

} // verus!
