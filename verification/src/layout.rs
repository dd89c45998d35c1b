//! Fixed filesystem layout under the user's home directory.
//!
//! Every managed path is derived from the home directory: the cache
//! root that contains each synchronized source tree, the database
//! file, and the per-kind install target roots.

use vstd::prelude::*;
use crate::manifest::PackageKind;
use crate::paths::basename_of;
use crate::paths::is_strictly_under;
use crate::paths::join;
use crate::paths::lemma_join_strictly_under;
use crate::paths::lemma_segments_avoid_sep;
use crate::paths::lemma_segments_nonempty;
use crate::paths::segments_of;
use crate::paths::sep;
use crate::paths::spec_ends_with;
use crate::paths::ends_with;
use crate::paths::basename;

verus! {

/// The directory that owns all managed state, under `home`.
pub open spec fn eiipm_dir_of(home: Seq<char>) -> Seq<char> {
    home + "/.eiipm"@
}

/// The cache root: every synchronized source tree lives below it.
pub open spec fn cache_root_of(home: Seq<char>) -> Seq<char> {
    home + "/.eiipm/cache"@
}

/// Where the database file lives.
pub open spec fn db_path_of(home: Seq<char>) -> Seq<char> {
    home + "/.local/share/eiipm/installed.toml"@
}

/// The install root for `binary` packages.
pub open spec fn bin_dir_of(home: Seq<char>) -> Seq<char> {
    home + "/.eiipm/bin"@
}

/// The install root for `library` packages, namespaced by package.
pub open spec fn lib_dir_of(home: Seq<char>, name: Seq<char>) -> Seq<char> {
    home + "/.eiipm/lib/"@ + name
}

/// The well-known manifest location for a package name.
pub open spec fn manifest_url_of(name: Seq<char>) -> Seq<char> {
    "https://raw.githubusercontent.com/Ewwii-sh/eii-manifests/main/manifests/"@ + name
        + ".toml"@
}

/// The cache subdirectory name of a repository: the final path
/// segment of its URL, stripped of a `.git` suffix.
pub open spec fn repo_name_of(url: Seq<char>) -> Seq<char> {
    let b = basename_of(url);
    if spec_ends_with(b, ".git"@) {
        b.take(b.len() - 4)
    } else {
        b
    }
}

/// Where the synchronized tree of a repository lives.
pub open spec fn repo_fs_path_of(home: Seq<char>, url: Seq<char>) -> Seq<char> {
    cache_root_of(home) + seq!['/'] + repo_name_of(url)
}

/// Wherever a repository's tree is placed, it lies strictly inside
/// the cache root: its directory name is one path segment of the
/// URL, which cannot carry a separator.
pub proof fn lemma_repo_path_contained(home: Seq<char>, url: Seq<char>)
    ensures
        is_strictly_under(repo_fs_path_of(home, url), cache_root_of(home)),
{
    lemma_segments_avoid_sep(url, sep());
    lemma_segments_nonempty(url, sep());
    let b = basename_of(url);
    let segs = segments_of(url);
    assert(b == segs[segs.len() - 1]);
    assert(forall|k: int| 0 <= k < b.len() ==> b[k] != sep());
    let name = repo_name_of(url);
    assert forall|k: int| 0 <= k < name.len() implies name[k] != sep() by {
        reveal_strlit(".git");
        if spec_ends_with(b, ".git"@) {
            assert(b.len() >= 4);
            assert(name == b.take(b.len() - 4));
            assert(name[k] == b[k]);
        } else {
            assert(name == b);
        }
    }
    lemma_join_strictly_under(cache_root_of(home), name);
    assert(cache_root_of(home) + seq![sep()] + name == repo_fs_path_of(home, url));
}

/// The install target root selected by a package's kind: `binary`
/// and `library` under fixed home subdirectories, `theme` in the
/// invoking process's working directory.
pub open spec fn target_root_of(
    kind: PackageKind,
    home: Seq<char>,
    cwd: Seq<char>,
    name: Seq<char>,
) -> Seq<char> {
    match kind {
        PackageKind::Binary => bin_dir_of(home),
        PackageKind::Theme => cwd,
        PackageKind::Library => lib_dir_of(home, name),
    }
}

pub fn eiipm_dir(home: &str) -> (r: String)
    ensures
        r@ == eiipm_dir_of(home@),
{
    let r = home.to_owned().concat("/.eiipm");
    r
}

pub fn cache_root(home: &str) -> (r: String)
    ensures
        r@ == cache_root_of(home@),
{
    home.to_owned().concat("/.eiipm/cache")
}

pub fn db_path(home: &str) -> (r: String)
    ensures
        r@ == db_path_of(home@),
{
    home.to_owned().concat("/.local/share/eiipm/installed.toml")
}

pub fn bin_dir(home: &str) -> (r: String)
    ensures
        r@ == bin_dir_of(home@),
{
    home.to_owned().concat("/.eiipm/bin")
}

pub fn lib_dir(home: &str, name: &str) -> (r: String)
    ensures
        r@ == lib_dir_of(home@, name@),
{
    home.to_owned().concat("/.eiipm/lib/").concat(name)
}

pub fn manifest_url(name: &str) -> (r: String)
    ensures
        r@ == manifest_url_of(name@),
{
    let base = "https://raw.githubusercontent.com/Ewwii-sh/eii-manifests/main/manifests/";
    base.to_owned().concat(name).concat(".toml")
}

/// The cache subdirectory name for a repository URL.
pub fn repo_name(url: &str) -> (r: String)
    ensures
        r@ == repo_name_of(url@),
{
    let b = basename(url);
    if ends_with(b.as_str(), ".git") {
        let n: usize = b.as_str().unicode_len();
        proof {
            reveal_strlit(".git");
        }
        let r = b.as_str().substring_char(0, n - 4).to_owned();
        proof {
            assert(r@ =~= basename_of(url@).take(basename_of(url@).len() - 4));
        }
        r
    } else {
        proof {
            reveal_strlit(".git");
        }
        b
    }
}

/// Where the synchronized tree of `url` lives under `home`.
pub fn repo_fs_path(home: &str, url: &str) -> (r: String)
    ensures
        r@ == repo_fs_path_of(home@, url@),
{
    let root = cache_root(home);
    let name = repo_name(url);
    join(root.as_str(), name.as_str())
}

/// The install target root for `kind`.
pub fn target_root(kind: PackageKind, home: &str, cwd: &str, name: &str) -> (r: String)
    ensures
        r@ == target_root_of(kind, home@, cwd@, name@),
{
    match kind {
        PackageKind::Binary => bin_dir(home),
        PackageKind::Theme => cwd.to_owned(),
        PackageKind::Library => lib_dir(home, name),
    }
}

/// The install target root of a tracked (non-theme) package: such a
/// kind always has a fixed root under the home directory.
pub open spec fn managed_target_root_of(
    kind: PackageKind,
    home: Seq<char>,
    name: Seq<char>,
) -> Seq<char>
    recommends
        kind != PackageKind::Theme,
{
    match kind {
        PackageKind::Binary => bin_dir_of(home),
        PackageKind::Library => lib_dir_of(home, name),
        PackageKind::Theme => Seq::empty(),
    }
}

/// The install target root for a tracked package's kind.
pub fn managed_target_root(kind: PackageKind, home: &str, name: &str) -> (r: String)
    requires
        kind != PackageKind::Theme,
    ensures
        r@ == managed_target_root_of(kind, home@, name@),
{
    match kind {
        PackageKind::Binary => bin_dir(home),
        PackageKind::Library => lib_dir(home, name),
        PackageKind::Theme => String::new(),
    }
}

/// The home directory and the managed locations below it.
pub struct HomeLayout {
    pub home: String,
    pub eiipm_dir: String,
    pub cache_root: String,
    pub db_path: String,
    pub bin_dir: String,
}

pub open spec fn layout_wf(l: HomeLayout) -> bool {
    &&& l.eiipm_dir@ == eiipm_dir_of(l.home@)
    &&& l.cache_root@ == cache_root_of(l.home@)
    &&& l.db_path@ == db_path_of(l.home@)
    &&& l.bin_dir@ == bin_dir_of(l.home@)
}

/// Relies on dirs::home_dir: the platform's home directory for the
/// current user, if it reports one. The value depends on the machine
/// and environment, so nothing is assumed about it.
#[verifier::external_body]
fn os_home_dir() -> (r: Option<String>) {
    dirs::home_dir().map(|p| p.to_string_lossy().into_owned())
}

/// The managed locations below the detected home directory, or
/// `None` when the platform reports no home.
pub fn home_layout() -> (r: Option<HomeLayout>)
    ensures
        r matches Some(l) ==> layout_wf(l),
{
    match os_home_dir() {
        Some(home) => {
            let l = HomeLayout {
                eiipm_dir: eiipm_dir(home.as_str()),
                cache_root: cache_root(home.as_str()),
                db_path: db_path(home.as_str()),
                bin_dir: bin_dir(home.as_str()),
                home,
            };
            Some(l)
        },
        None => None,
    }
}

} // verus!
