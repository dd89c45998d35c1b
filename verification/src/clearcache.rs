//! The cache-clearing workflow: delete synchronized trees, never
//! anything else.
//!
//! A cache directory is deleted only after the containment check: it
//! must lie strictly below the cache root, or the operation fails
//! closed with `UnsafeDeletion` — whatever the user confirmed.
//! Database records are kept: clearing the cache is independent of
//! installation state.

use vstd::prelude::*;
use crate::db::InstalledPackage;
use crate::db::PackageDB;
use crate::layout::cache_root_of;
use crate::layout::cache_root;
use crate::manifest::PmError;
use crate::paths::is_strictly_under;
use crate::paths::strictly_under;

verus! {

/// What clearing one package's cache does: a missing directory is
/// already clean; a present one is deleted only when strictly inside
/// the cache root.
pub open spec fn clear_decision(path: Seq<char>, root: Seq<char>, dir_exists: bool) -> Result<
    Option<Seq<char>>,
    PmError,
> {
    if !dir_exists {
        Ok(None)
    } else if is_strictly_under(path, root) {
        Ok(Some(path))
    } else {
        Err(PmError::UnsafeDeletion)
    }
}

/// Whatever the inputs, a path handed out for deletion lies strictly
/// inside the cache root, and a present directory outside it is
/// refused with `UnsafeDeletion`, never deleted.
pub proof fn lemma_clear_refuses_outside(path: Seq<char>, root: Seq<char>, dir_exists: bool)
    ensures
        dir_exists && !is_strictly_under(path, root) ==> clear_decision(path, root, dir_exists)
            == Err::<Option<Seq<char>>, PmError>(PmError::UnsafeDeletion),
        forall|p: Seq<char>|
            clear_decision(path, root, dir_exists) == Ok::<Option<Seq<char>>, PmError>(
                Some(p),
            ) ==> is_strictly_under(p, root),
{
}

/// Decides the deletion for one package's cache directory.
pub fn clear_file_cache(pkg: &InstalledPackage, home: &str, dir_exists: bool) -> (r: Result<
    Option<String>,
    PmError,
>)
    ensures
        match r {
            Ok(opt) => match opt {
                Some(p) => clear_decision(pkg.repo_fs_path@, cache_root_of(home@), dir_exists)
                    == Ok::<Option<Seq<char>>, PmError>(Some(p@)),
                None => clear_decision(pkg.repo_fs_path@, cache_root_of(home@), dir_exists)
                    == Ok::<Option<Seq<char>>, PmError>(None),
            },
            Err(e) => clear_decision(pkg.repo_fs_path@, cache_root_of(home@), dir_exists)
                == Err::<Option<Seq<char>>, PmError>(e),
        },
{
    if !dir_exists {
        return Ok(None);
    }
    let root = cache_root(home);
    if strictly_under(pkg.repo_fs_path.as_str(), root.as_str()) {
        Ok(Some(pkg.repo_fs_path.clone()))
    } else {
        Err(PmError::UnsafeDeletion)
    }
}

/// The deletions of clearing every package in order; the first
/// refused directory aborts the whole plan.
pub open spec fn clear_all_plan(
    pkgs: Seq<(String, InstalledPackage)>,
    exs: Seq<bool>,
    root: Seq<char>,
) -> Result<Seq<Seq<char>>, PmError>
    recommends
        pkgs.len() == exs.len(),
    decreases pkgs.len(),
{
    if pkgs.len() == 0 {
        Ok(Seq::empty())
    } else {
        match clear_decision(pkgs[0].1.repo_fs_path@, root, exs[0]) {
            Ok(opt) => {
                let here: Seq<Seq<char>> = match opt {
                    Some(p) => seq![p],
                    None => Seq::empty(),
                };
                match clear_all_plan(pkgs.skip(1), exs.skip(1), root) {
                    Ok(rest) => Ok(here + rest),
                    Err(e) => Err(e),
                }
            },
            Err(e) => Err(e),
        }
    }
}

/// Whatever the records say, every directory a successful clearing
/// plan hands out for deletion lies strictly inside the cache root.
pub proof fn lemma_clear_plan_contained(
    pkgs: Seq<(String, InstalledPackage)>,
    exs: Seq<bool>,
    root: Seq<char>,
)
    ensures
        forall|v: Seq<Seq<char>>|
            clear_all_plan(pkgs, exs, root) == Ok::<Seq<Seq<char>>, PmError>(v) ==> forall|i: int|
                0 <= i < v.len() ==> is_strictly_under(v[i], root),
    decreases pkgs.len(),
{
    if pkgs.len() == 0 {
        assert forall|v: Seq<Seq<char>>|
            clear_all_plan(pkgs, exs, root) == Ok::<Seq<Seq<char>>, PmError>(v) implies forall|
            i: int,
        |
            0 <= i < v.len() ==> is_strictly_under(v[i], root) by {
            assert(v =~= Seq::<Seq<char>>::empty());
        }
    } else {
        lemma_clear_plan_contained(pkgs.skip(1), exs.skip(1), root);
        assert forall|v: Seq<Seq<char>>|
            clear_all_plan(pkgs, exs, root) == Ok::<Seq<Seq<char>>, PmError>(v) implies forall|
            i: int,
        |
            0 <= i < v.len() ==> is_strictly_under(v[i], root) by {
            match clear_decision(pkgs[0].1.repo_fs_path@, root, exs[0]) {
                Ok(opt) => {
                    let here: Seq<Seq<char>> = match opt {
                        Some(p) => seq![p],
                        None => Seq::empty(),
                    };
                    match clear_all_plan(pkgs.skip(1), exs.skip(1), root) {
                        Ok(rest) => {
                            assert(v == here + rest);
                            assert forall|i: int| 0 <= i < v.len() implies is_strictly_under(
                                v[i],
                                root,
                            ) by {
                                if i < here.len() {
                                    assert(opt matches Some(p) && here[0] == p);
                                    assert(exs[0] && is_strictly_under(
                                        pkgs[0].1.repo_fs_path@,
                                        root,
                                    ));
                                } else {
                                    assert(v[i] == rest[i - here.len()]);
                                }
                            }
                        },
                        Err(e) => {
                            assert(false);
                        },
                    }
                },
                Err(e) => {
                    assert(false);
                },
            }
        }
    }
}

/// Plans the cache clearing of one package, or of all. `dir_exists`
/// reports, per selected package in record order, whether its cache
/// directory is present. A selected name without a record clears
/// nothing.
pub fn clean_package_cache(
    db: &PackageDB,
    package_name: &Option<String>,
    home: &str,
    dir_exists: &Vec<bool>,
) -> (r: Result<Vec<String>, PmError>)
    requires
        db.wf(),
        match package_name {
            Some(_) => dir_exists.len() == 1,
            None => dir_exists.len() == db.packages@.len(),
        },
    ensures
        match package_name {
            Some(name) => {
                if db.spec_contains(name@) {
                    match r {
                        Ok(v) => clear_all_plan(
                            seq![(*name, db.spec_get(name@))],
                            dir_exists@,
                            cache_root_of(home@),
                        ) == Ok::<Seq<Seq<char>>, PmError>(v.deep_view()),
                        Err(e) => clear_all_plan(
                            seq![(*name, db.spec_get(name@))],
                            dir_exists@,
                            cache_root_of(home@),
                        ) == Err::<Seq<Seq<char>>, PmError>(e),
                    }
                } else {
                    r matches Ok(v) && v@.len() == 0
                }
            },
            None => match r {
                Ok(v) => clear_all_plan(db.packages@, dir_exists@, cache_root_of(home@)) == Ok::<
                    Seq<Seq<char>>,
                    PmError,
                >(v.deep_view()),
                Err(e) => clear_all_plan(db.packages@, dir_exists@, cache_root_of(home@)) == Err::<
                    Seq<Seq<char>>,
                    PmError,
                >(e),
            },
        },
{
    match package_name {
        Some(name) => {
            match db.get(name.as_str()) {
                Some(pkg) => {
                    match clear_file_cache(pkg, home, dir_exists[0]) {
                        Ok(Some(p)) => {
                            let mut v: Vec<String> = Vec::new();
                            v.push(p);
                            proof {
                                let item = (*name, db.spec_get(name@));
                                let s = seq![item];
                                assert(s.skip(1) =~= Seq::<(String, InstalledPackage)>::empty());
                                assert(clear_all_plan(
                                    s.skip(1),
                                    dir_exists@.skip(1),
                                    cache_root_of(home@),
                                ) == Ok::<Seq<Seq<char>>, PmError>(Seq::empty()));
                                assert(v.deep_view() =~= seq![db.spec_get(name@).repo_fs_path@]
                                    + Seq::<Seq<char>>::empty());
                            }
                            Ok(v)
                        },
                        Ok(None) => {
                            let v: Vec<String> = Vec::new();
                            proof {
                                let item = (*name, db.spec_get(name@));
                                let s = seq![item];
                                assert(s.skip(1) =~= Seq::<(String, InstalledPackage)>::empty());
                                assert(v.deep_view() =~= Seq::<Seq<char>>::empty()
                                    + Seq::<Seq<char>>::empty());
                            }
                            Ok(v)
                        },
                        Err(e) => Err(e),
                    }
                },
                None => Ok(Vec::new()),
            }
        },
        None => {
            let root = cache_root(home);
            let mut out: Vec<String> = Vec::new();
            let mut i: usize = 0;
            proof {
                assert(db.packages@.skip(0) =~= db.packages@);
                assert(dir_exists@.skip(0) =~= dir_exists@);
            }
            while i < db.packages.len()
                invariant
                    package_name is None,
                    i <= db.packages@.len() == dir_exists@.len(),
                    root@ == cache_root_of(home@),
                    forall|rest: Seq<Seq<char>>|
                        clear_all_plan(
                            db.packages@.skip(i as int),
                            dir_exists@.skip(i as int),
                            cache_root_of(home@),
                        ) == Ok::<Seq<Seq<char>>, PmError>(rest) ==> clear_all_plan(
                            db.packages@,
                            dir_exists@,
                            cache_root_of(home@),
                        ) == Ok::<Seq<Seq<char>>, PmError>(out.deep_view() + rest),
                    forall|er: PmError|
                        clear_all_plan(
                            db.packages@.skip(i as int),
                            dir_exists@.skip(i as int),
                            cache_root_of(home@),
                        ) == Err::<Seq<Seq<char>>, PmError>(er) ==> clear_all_plan(
                            db.packages@,
                            dir_exists@,
                            cache_root_of(home@),
                        ) == Err::<Seq<Seq<char>>, PmError>(er),
                decreases db.packages@.len() - i,
            {
                let ghost pre = out.deep_view();
                proof {
                    assert(db.packages@.skip(i as int)[0] == db.packages@[i as int]);
                    assert(db.packages@.skip(i as int).skip(1) =~= db.packages@.skip(i + 1));
                    assert(dir_exists@.skip(i as int)[0] == dir_exists@[i as int]);
                    assert(dir_exists@.skip(i as int).skip(1) =~= dir_exists@.skip(i + 1));
                }
                let pkg = &db.packages[i].1;
                let ex = dir_exists[i];
                if !ex {
                    proof {
                        assert(pre + Seq::<Seq<char>>::empty() =~= pre);
                        assert forall|rest: Seq<Seq<char>>|
                            clear_all_plan(
                                db.packages@.skip(i + 1),
                                dir_exists@.skip(i + 1),
                                cache_root_of(home@),
                            ) == Ok::<Seq<Seq<char>>, PmError>(rest) implies clear_all_plan(
                            db.packages@,
                            dir_exists@,
                            cache_root_of(home@),
                        ) == Ok::<Seq<Seq<char>>, PmError>(out.deep_view() + rest) by {
                            assert(Seq::<Seq<char>>::empty() + rest =~= rest);
                        }
                    }
                } else if strictly_under(pkg.repo_fs_path.as_str(), root.as_str()) {
                    out.push(pkg.repo_fs_path.clone());
                    proof {
                        assert(out.deep_view() =~= pre.push(pkg.repo_fs_path@));
                        assert forall|rest: Seq<Seq<char>>|
                            clear_all_plan(
                                db.packages@.skip(i + 1),
                                dir_exists@.skip(i + 1),
                                cache_root_of(home@),
                            ) == Ok::<Seq<Seq<char>>, PmError>(rest) implies clear_all_plan(
                            db.packages@,
                            dir_exists@,
                            cache_root_of(home@),
                        ) == Ok::<Seq<Seq<char>>, PmError>(out.deep_view() + rest) by {
                            assert(pre + (seq![pkg.repo_fs_path@] + rest) =~= out.deep_view()
                                + rest);
                        }
                    }
                } else {
                    proof {
                        assert(clear_all_plan(
                            db.packages@.skip(i as int),
                            dir_exists@.skip(i as int),
                            cache_root_of(home@),
                        ) == Err::<Seq<Seq<char>>, PmError>(PmError::UnsafeDeletion));
                    }
                    return Err(PmError::UnsafeDeletion);
                }
                i = i + 1;
            }
            proof {
                assert(db.packages@.skip(db.packages@.len() as int) =~= Seq::<
                    (String, InstalledPackage),
                >::empty());
                assert(dir_exists@.skip(db.packages@.len() as int) =~= Seq::<bool>::empty());
                assert(out.deep_view() + Seq::<Seq<char>>::empty() =~= out.deep_view());
            }
            Ok(out)
        },
    }
}

} // verus!
