//! The source synchronizer's decisions: which repository operation
//! brings the cache to the required commit, and the recovery ladder
//! for branch-tracking clones.
//!
//! The operations themselves (clone, fetch, reset, rebase) are
//! performed by the surrounding binary through its version-control
//! layer; this module decides which to run, and refuses any deletion
//! whose target does not lie strictly inside the cache root.

use vstd::prelude::*;
use crate::manifest::PmError;
use crate::paths::is_strictly_under;
use crate::paths::strictly_under;

verus! {

/// How to bring the cache to the required commit: initialize and
/// shallow-fetch when no local copy exists, else fetch and hard-reset
/// the existing copy.
#[derive(Clone, Debug)]
pub enum SyncMethod {
    InitAndFetch { url: String, path: String, commit: String, depth: i32 },
    UpdateToLatest { path: String, commit: String, depth: i32 },
}

/// What the right synchronization method looks like: fetch-and-reset
/// an existing copy, initialize-and-fetch an absent one.
pub open spec fn sync_plan_is(
    m: SyncMethod,
    url: Seq<char>,
    path: Seq<char>,
    commit: Seq<char>,
    repo_exists: bool,
    depth: i32,
) -> bool {
    if repo_exists {
        m matches SyncMethod::UpdateToLatest { path: p, commit: c, depth: d } && p@ == path
            && c@ == commit && d == depth
    } else {
        m matches SyncMethod::InitAndFetch { url: u, path: p, commit: c, depth: d } && u@ == url
            && p@ == path && c@ == commit && d == depth
    }
}

/// Chooses the synchronization method for a repository: the least
/// destructive operation that reaches `commit` from the local state.
pub fn plan_sync(url: &str, path: &str, commit: &str, repo_exists: bool, depth: i32) -> (r:
    SyncMethod)
    ensures
        sync_plan_is(r, url@, path@, commit@, repo_exists, depth),
{
    if repo_exists {
        SyncMethod::UpdateToLatest { path: path.to_owned(), commit: commit.to_owned(), depth }
    } else {
        SyncMethod::InitAndFetch {
            url: url.to_owned(),
            path: path.to_owned(),
            commit: commit.to_owned(),
            depth,
        }
    }
}

/// The recovery ladder for a branch-tracking clone, one state per
/// step. In `Pulling`, `Rebasing` and `Recloning` the caller runs the
/// named operation and reports back; in `AwaitRebase` and
/// `AwaitReclone` it asks for confirmation. `Recloning` is the only
/// state in which the cache directory may be deleted.
#[derive(Clone, Copy, PartialEq, Eq, Structural, Debug)]
pub enum LadderState {
    Pulling,
    AwaitRebase,
    Rebasing,
    AwaitReclone,
    Recloning,
    Ready,
    Failed(PmError),
}

/// What the caller reports: the outcome of an operation, or the
/// user's answer to a confirmation.
#[derive(Clone, Copy, PartialEq, Eq, Structural, Debug)]
pub enum LadderEvent {
    Succeeded,
    Failed,
    Confirmed,
    Refused,
}

/// The transition relation of the recovery ladder: fast-forward pull,
/// then an offered rebase, then an offered delete-and-reclone. The
/// step into `Recloning` happens only when the repository path lies
/// strictly inside the cache root; otherwise the ladder fails closed
/// with `UnsafeDeletion`, however the confirmation went.
pub open spec fn spec_ladder_step(
    s: LadderState,
    ev: LadderEvent,
    repo_path: Seq<char>,
    cache_root: Seq<char>,
) -> LadderState {
    match s {
        LadderState::Pulling => match ev {
            LadderEvent::Succeeded => LadderState::Ready,
            LadderEvent::Failed => LadderState::AwaitRebase,
            _ => s,
        },
        LadderState::AwaitRebase => match ev {
            LadderEvent::Confirmed => LadderState::Rebasing,
            LadderEvent::Refused => LadderState::AwaitReclone,
            _ => s,
        },
        LadderState::Rebasing => match ev {
            LadderEvent::Succeeded => LadderState::Ready,
            LadderEvent::Failed => LadderState::AwaitReclone,
            _ => s,
        },
        LadderState::AwaitReclone => match ev {
            LadderEvent::Confirmed => if is_strictly_under(repo_path, cache_root) {
                LadderState::Recloning
            } else {
                LadderState::Failed(PmError::UnsafeDeletion)
            },
            LadderEvent::Refused => LadderState::Failed(PmError::SyncError),
            _ => s,
        },
        LadderState::Recloning => match ev {
            LadderEvent::Succeeded => LadderState::Ready,
            LadderEvent::Failed => LadderState::Failed(PmError::SyncError),
            _ => s,
        },
        LadderState::Ready => s,
        LadderState::Failed(e) => s,
    }
}

/// Advances the recovery ladder by one reported event.
pub fn ladder_step(s: LadderState, ev: LadderEvent, repo_path: &str, cache_root: &str) -> (r:
    LadderState)
    ensures
        r == spec_ladder_step(s, ev, repo_path@, cache_root@),
{
    match s {
        LadderState::Pulling => match ev {
            LadderEvent::Succeeded => LadderState::Ready,
            LadderEvent::Failed => LadderState::AwaitRebase,
            _ => s,
        },
        LadderState::AwaitRebase => match ev {
            LadderEvent::Confirmed => LadderState::Rebasing,
            LadderEvent::Refused => LadderState::AwaitReclone,
            _ => s,
        },
        LadderState::Rebasing => match ev {
            LadderEvent::Succeeded => LadderState::Ready,
            LadderEvent::Failed => LadderState::AwaitReclone,
            _ => s,
        },
        LadderState::AwaitReclone => match ev {
            LadderEvent::Confirmed => if strictly_under(repo_path, cache_root) {
                LadderState::Recloning
            } else {
                LadderState::Failed(PmError::UnsafeDeletion)
            },
            LadderEvent::Refused => LadderState::Failed(PmError::SyncError),
            _ => s,
        },
        LadderState::Recloning => match ev {
            LadderEvent::Succeeded => LadderState::Ready,
            LadderEvent::Failed => LadderState::Failed(PmError::SyncError),
            _ => s,
        },
        LadderState::Ready => s,
        LadderState::Failed(_) => s,
    }
}

/// However the ladder is driven, it enters the deleting state only
/// for a path strictly inside the cache root; a confirmed reclone of
/// any other path fails closed with `UnsafeDeletion` and no state of
/// the ladder ever orders that deletion.
pub proof fn lemma_reclone_refuses_outside(
    s: LadderState,
    ev: LadderEvent,
    repo_path: Seq<char>,
    cache_root: Seq<char>,
)
    requires
        s != LadderState::Recloning,
        !is_strictly_under(repo_path, cache_root),
    ensures
        spec_ladder_step(s, ev, repo_path, cache_root) != LadderState::Recloning,
        s == LadderState::AwaitReclone && ev == LadderEvent::Confirmed ==> spec_ladder_step(
            s,
            ev,
            repo_path,
            cache_root,
        ) == LadderState::Failed(PmError::UnsafeDeletion),
{
}

/// Whether the stored revision differs from the one the manifest now
/// advertises; the canonical freshness test.
pub fn update_needed(installed_hash: &str, upstream_hash: &str) -> (r: bool)
    ensures
        r == (installed_hash@ != upstream_hash@),
{
    !crate::manifest::str_eq(installed_hash, upstream_hash)
}

} // verus!
