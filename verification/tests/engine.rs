use eiipm::checkupdate::check_package_updates;
use eiipm::clearcache::{clean_package_cache, clear_file_cache};
use eiipm::db::{InstalledPackage, PackageDB};
use eiipm::install::{build_outcome, install_package, record_install};
use eiipm::list::{list_packages, ListSelection};
use eiipm::manifest::{FileEntry, PackageKind, PackageMeta, PmError};
use eiipm::materialize::materialize_plan;
use eiipm::opts::{ListArgs, SearchArgs};
use eiipm::purgecache::purge_cache;
use eiipm::search::{search_package, SearchReport};
use eiipm::sync::{ladder_step, plan_sync, LadderEvent, LadderState, SyncMethod};
use eiipm::uninstall::uninstall_package;
use eiipm::update::{is_update_needed_for, update_file, update_package, UpdateDecision};

fn record(path: &str, kind: PackageKind, hash: &str) -> InstalledPackage {
    InstalledPackage {
        repo_fs_path: path.to_string(),
        installed_files: vec![],
        copy_files: vec![],
        pkg_type: kind,
        upstream_src: "https://example.com/o/repo.git".to_string(),
        installed_hash: hash.to_string(),
        manifest_url: "https://example.com/manifests/p.toml".to_string(),
        build_command: None,
    }
}

fn sample_db() -> PackageDB {
    let mut db = PackageDB::new();
    db.upsert(
        "foo".to_string(),
        record("/home/u/.eiipm/cache/foo", PackageKind::Binary, "aaa"),
    );
    db.upsert(
        "bar".to_string(),
        record("/home/u/.eiipm/cache/bar", PackageKind::Library, "bbb"),
    );
    db
}

fn dests(actions: &[eiipm::materialize::CopyAction]) -> Vec<String> {
    actions.iter().map(|a| a.dest.clone()).collect()
}

#[test]
fn materialize_flat_and_glob_entries() {
    let entries = vec![
        FileEntry::Flat("a.txt".to_string()),
        FileEntry::Flat("b/*.so".to_string()),
    ];
    let tree = vec![
        "a.txt".to_string(),
        "b/x.so".to_string(),
        "b/y.so".to_string(),
        "c.txt".to_string(),
    ];
    let plan = materialize_plan(&entries, &tree, "/t").unwrap();
    assert_eq!(
        dests(&plan),
        vec!["/t/a.txt".to_string(), "/t/x.so".to_string(), "/t/y.so".to_string()]
    );
}

#[test]
fn materialize_detailed_entries() {
    let entries = vec![
        FileEntry::Detailed { src: "bin/tool".to_string(), dest: Some("tool".to_string()) },
        FileEntry::Detailed { src: "doc/readme".to_string(), dest: None },
    ];
    let tree = vec!["bin/tool".to_string(), "doc/readme".to_string()];
    let plan = materialize_plan(&entries, &tree, "/t").unwrap();
    assert_eq!(dests(&plan), vec!["/t/tool".to_string(), "/t/doc/readme".to_string()]);
}

#[test]
fn materialize_missing_literal_entry_fails() {
    let entries = vec![FileEntry::Flat("gone.txt".to_string())];
    let tree = vec!["other.txt".to_string()];
    assert_eq!(materialize_plan(&entries, &tree, "/t").unwrap_err(), PmError::MissingFile);
}

#[test]
fn materialize_empty_glob_match_is_allowed() {
    let entries = vec![FileEntry::Flat("opt/*.cfg".to_string())];
    let tree = vec!["other.txt".to_string()];
    let plan = materialize_plan(&entries, &tree, "/t").unwrap();
    assert!(plan.is_empty());
}

#[test]
fn materialize_is_idempotent_on_same_inputs() {
    let entries = vec![
        FileEntry::Flat("a.txt".to_string()),
        FileEntry::Flat("b/*.so".to_string()),
    ];
    let tree = vec!["a.txt".to_string(), "b/x.so".to_string()];
    let first = dests(&materialize_plan(&entries, &tree, "/t").unwrap());
    let second = dests(&materialize_plan(&entries, &tree, "/t").unwrap());
    assert_eq!(first, second);
}

#[test]
fn install_plan_clones_when_absent_and_resets_when_present() {
    let meta = PackageMeta {
        name: "p".to_string(),
        pkg_type: PackageKind::Binary,
        src: "https://example.com/o/repo.git".to_string(),
        commit_hash: "c1".to_string(),
        files: vec![],
        build: Some("make".to_string()),
    };
    let plan = install_package("p", &meta, "/home/u", "/cwd", false).unwrap();
    assert_eq!(plan.repo_fs_path, "/home/u/.eiipm/cache/repo");
    assert_eq!(plan.build.as_deref(), Some("make"));
    assert_eq!(plan.target_base_dir, "/home/u/.eiipm/bin");
    match plan.sync {
        SyncMethod::InitAndFetch { url, path, commit, depth } => {
            assert_eq!(url, "https://example.com/o/repo.git");
            assert_eq!(path, "/home/u/.eiipm/cache/repo");
            assert_eq!(commit, "c1");
            assert_eq!(depth, 1);
        }
        _ => panic!("expected a clone"),
    }
    let plan = install_package("p", &meta, "/home/u", "/cwd", true).unwrap();
    match plan.sync {
        SyncMethod::UpdateToLatest { path, commit, depth } => {
            assert_eq!(path, "/home/u/.eiipm/cache/repo");
            assert_eq!(commit, "c1");
            assert_eq!(depth, 1);
        }
        _ => panic!("expected a fetch-and-reset"),
    }
}

#[test]
fn install_plan_rejects_wrong_manifest_name() {
    let meta = PackageMeta {
        name: "other".to_string(),
        pkg_type: PackageKind::Binary,
        src: "https://example.com/o/repo.git".to_string(),
        commit_hash: "c1".to_string(),
        files: vec![],
        build: None,
    };
    assert_eq!(
        install_package("p", &meta, "/home/u", "/cwd", false).unwrap_err(),
        PmError::MalformedManifest
    );
}

#[test]
fn build_outcome_maps_failure() {
    assert!(build_outcome(true).is_ok());
    assert_eq!(build_outcome(false).unwrap_err(), PmError::BuildFailed);
}

#[test]
fn record_install_tracks_binary_packages() {
    let mut db = PackageDB::new();
    let meta = PackageMeta {
        name: "p".to_string(),
        pkg_type: PackageKind::Binary,
        src: "https://example.com/o/repo.git".to_string(),
        commit_hash: "c1".to_string(),
        files: vec![FileEntry::Flat("a".to_string())],
        build: None,
    };
    record_install(
        &mut db,
        &meta,
        "/home/u/.eiipm/cache/repo".to_string(),
        vec!["/home/u/.eiipm/bin/a".to_string()],
    );
    let pkg = db.get("p").expect("record stored");
    assert_eq!(pkg.repo_fs_path, "/home/u/.eiipm/cache/repo");
    assert_eq!(pkg.installed_files, vec!["/home/u/.eiipm/bin/a".to_string()]);
    assert_eq!(pkg.installed_hash, "c1");
    assert_eq!(
        pkg.manifest_url,
        "https://raw.githubusercontent.com/Ewwii-sh/eii-manifests/main/manifests/p.toml"
    );
}

#[test]
fn record_install_never_tracks_themes() {
    let mut db = PackageDB::new();
    let meta = PackageMeta {
        name: "t".to_string(),
        pkg_type: PackageKind::Theme,
        src: "https://example.com/o/repo.git".to_string(),
        commit_hash: "c1".to_string(),
        files: vec![],
        build: None,
    };
    record_install(&mut db, &meta, "/x".to_string(), vec!["/cwd/style.css".to_string()]);
    assert_eq!(db.count(), 0);
    assert!(db.get("t").is_none());
}

#[test]
fn update_skips_theme_before_any_fetch() {
    let pkg = record("/home/u/.eiipm/cache/t", PackageKind::Theme, "aaa");
    let d = update_package(&pkg, "t", "/home/u", true, &None);
    assert!(matches!(d, UpdateDecision::SkipTheme));
    let d = update_package(&pkg, "t", "/home/u", true, &Some("zzz".to_string()));
    assert!(matches!(d, UpdateDecision::SkipTheme));
}

#[test]
fn update_asks_for_the_stored_manifest_first() {
    let pkg = record("/home/u/.eiipm/cache/foo", PackageKind::Binary, "aaa");
    match update_package(&pkg, "foo", "/home/u", true, &None) {
        UpdateDecision::NeedManifest { manifest_url } => {
            assert_eq!(manifest_url, "https://example.com/manifests/p.toml");
        }
        _ => panic!("expected a manifest fetch"),
    }
}

#[test]
fn update_is_noop_when_revision_unchanged() {
    let pkg = record("/home/u/.eiipm/cache/foo", PackageKind::Binary, "aaa");
    let d = update_package(&pkg, "foo", "/home/u", true, &Some("aaa".to_string()));
    assert!(matches!(d, UpdateDecision::UpToDate));
}

#[test]
fn update_refreshes_when_revision_moved() {
    let pkg = record("/home/u/.eiipm/cache/foo", PackageKind::Binary, "aaa");
    match update_package(&pkg, "foo", "/home/u", true, &Some("bbb".to_string())) {
        UpdateDecision::Refresh { sync, build, target_base_dir, new_hash } => {
            assert_eq!(new_hash, "bbb");
            assert_eq!(target_base_dir, "/home/u/.eiipm/bin");
            assert_eq!(build, None);
            match sync {
                SyncMethod::UpdateToLatest { path, commit, depth } => {
                    assert_eq!(path, "/home/u/.eiipm/cache/foo");
                    assert_eq!(commit, "bbb");
                    assert_eq!(depth, 1);
                }
                _ => panic!("tree exists, expected a fetch-and-reset"),
            }
        }
        _ => panic!("expected a refresh"),
    }
}

#[test]
fn update_file_overwrites_the_stored_revision() {
    let mut pkg = record("/home/u/.eiipm/cache/foo", PackageKind::Binary, "aaa");
    pkg.copy_files = vec![FileEntry::Flat("tool".to_string())];
    let tree = vec!["tool".to_string()];
    let actions = update_file(&mut pkg, "foo", "bbb".to_string(), "/home/u", &tree).unwrap();
    assert_eq!(dests(&actions), vec!["/home/u/.eiipm/bin/tool".to_string()]);
    assert_eq!(pkg.installed_hash, "bbb");
}

#[test]
fn update_file_keeps_the_record_on_missing_file() {
    let mut pkg = record("/home/u/.eiipm/cache/foo", PackageKind::Binary, "aaa");
    pkg.copy_files = vec![FileEntry::Flat("gone".to_string())];
    let tree = vec!["tool".to_string()];
    let err = update_file(&mut pkg, "foo", "bbb".to_string(), "/home/u", &tree).unwrap_err();
    assert_eq!(err, PmError::MissingFile);
    assert_eq!(pkg.installed_hash, "aaa");
}

#[test]
fn is_update_needed_compares_hashes() {
    let db = sample_db();
    let (needed, hash) = is_update_needed_for(&db, "foo", &"zzz".to_string()).unwrap();
    assert!(needed);
    assert_eq!(hash, "zzz");
    let (needed, _) = is_update_needed_for(&db, "foo", &"aaa".to_string()).unwrap();
    assert!(!needed);
    assert_eq!(
        is_update_needed_for(&db, "nope", &"x".to_string()).unwrap_err(),
        PmError::NotInstalled
    );
}

#[test]
fn uninstall_removes_files_and_record() {
    let mut db = PackageDB::new();
    let mut pkg = record("/home/u/.eiipm/cache/foo", PackageKind::Binary, "aaa");
    pkg.installed_files =
        vec!["/home/u/.eiipm/bin/a".to_string(), "/home/u/.eiipm/bin/b".to_string()];
    db.upsert("foo".to_string(), pkg);
    let files = uninstall_package(&mut db, "foo").unwrap();
    assert_eq!(
        files,
        vec!["/home/u/.eiipm/bin/a".to_string(), "/home/u/.eiipm/bin/b".to_string()]
    );
    assert_eq!(db.count(), 0);
}

#[test]
fn uninstall_unknown_reports_not_installed_and_keeps_db() {
    let mut db = sample_db();
    assert_eq!(uninstall_package(&mut db, "nope").unwrap_err(), PmError::NotInstalled);
    assert_eq!(db.count(), 2);
    assert!(db.get("foo").is_some());
    assert!(db.get("bar").is_some());
}

#[test]
fn clear_cache_refuses_paths_outside_the_cache_root() {
    let etc = record("/etc", PackageKind::Binary, "aaa");
    assert_eq!(clear_file_cache(&etc, "/home/u", true).unwrap_err(), PmError::UnsafeDeletion);
    let home = record("/home/u", PackageKind::Binary, "aaa");
    assert_eq!(clear_file_cache(&home, "/home/u", true).unwrap_err(), PmError::UnsafeDeletion);
}

#[test]
fn clear_cache_deletes_contained_paths_and_skips_missing() {
    let pkg = record("/home/u/.eiipm/cache/foo", PackageKind::Binary, "aaa");
    assert_eq!(
        clear_file_cache(&pkg, "/home/u", true).unwrap(),
        Some("/home/u/.eiipm/cache/foo".to_string())
    );
    assert_eq!(clear_file_cache(&pkg, "/home/u", false).unwrap(), None);
}

#[test]
fn clean_package_cache_plans_all_packages() {
    let db = sample_db();
    let dirs = clean_package_cache(&db, &None, "/home/u", &vec![true, false]).unwrap();
    assert_eq!(dirs, vec!["/home/u/.eiipm/cache/foo".to_string()]);
}

#[test]
fn clean_package_cache_single_and_unknown() {
    let db = sample_db();
    let dirs = clean_package_cache(&db, &Some("bar".to_string()), "/home/u", &vec![true]).unwrap();
    assert_eq!(dirs, vec!["/home/u/.eiipm/cache/bar".to_string()]);
    let dirs = clean_package_cache(&db, &Some("nope".to_string()), "/home/u", &vec![true]).unwrap();
    assert!(dirs.is_empty());
}

#[test]
fn clean_package_cache_fails_closed_on_escape() {
    let mut db = sample_db();
    db.upsert("evil".to_string(), record("/etc", PackageKind::Binary, "ccc"));
    let err = clean_package_cache(&db, &Some("evil".to_string()), "/home/u", &vec![true])
        .unwrap_err();
    assert_eq!(err, PmError::UnsafeDeletion);
}

#[test]
fn reclone_step_checks_containment_even_after_confirmation() {
    let s = ladder_step(
        LadderState::AwaitReclone,
        LadderEvent::Confirmed,
        "/etc",
        "/home/u/.eiipm/cache",
    );
    assert_eq!(s, LadderState::Failed(PmError::UnsafeDeletion));
    let s = ladder_step(
        LadderState::AwaitReclone,
        LadderEvent::Confirmed,
        "/home/u/.eiipm/cache/repo",
        "/home/u/.eiipm/cache",
    );
    assert_eq!(s, LadderState::Recloning);
}

#[test]
fn ladder_walks_pull_rebase_reclone() {
    let root = "/home/u/.eiipm/cache";
    let path = "/home/u/.eiipm/cache/repo";
    let s = ladder_step(LadderState::Pulling, LadderEvent::Succeeded, path, root);
    assert_eq!(s, LadderState::Ready);
    let s = ladder_step(LadderState::Pulling, LadderEvent::Failed, path, root);
    assert_eq!(s, LadderState::AwaitRebase);
    let s = ladder_step(s, LadderEvent::Confirmed, path, root);
    assert_eq!(s, LadderState::Rebasing);
    let s = ladder_step(s, LadderEvent::Failed, path, root);
    assert_eq!(s, LadderState::AwaitReclone);
    let s = ladder_step(s, LadderEvent::Refused, path, root);
    assert_eq!(s, LadderState::Failed(PmError::SyncError));
}

#[test]
fn plan_sync_depends_on_local_state() {
    match plan_sync("u", "p", "c", false, 1) {
        SyncMethod::InitAndFetch { .. } => {}
        _ => panic!("expected a clone"),
    }
    match plan_sync("u", "p", "c", true, 1) {
        SyncMethod::UpdateToLatest { .. } => {}
        _ => panic!("expected a fetch-and-reset"),
    }
}

#[test]
fn purge_removes_exactly_the_orphans() {
    let db = sample_db();
    let dirs = vec!["foo".to_string(), "bar".to_string(), "orphan".to_string()];
    let removed = purge_cache(&db, &dirs);
    assert_eq!(removed, vec!["orphan".to_string()]);
}

#[test]
fn purge_with_empty_database_removes_everything() {
    let db = PackageDB::new();
    let dirs = vec!["a".to_string(), "b".to_string()];
    assert_eq!(purge_cache(&db, &dirs), dirs);
}

#[test]
fn check_updates_filters_by_stored_hash() {
    let db = sample_db();
    let reports = vec![
        ("foo".to_string(), "aaa".to_string()),
        ("bar".to_string(), "new".to_string()),
        ("ghost".to_string(), "x".to_string()),
    ];
    assert_eq!(check_package_updates(&db, &reports), vec!["bar".to_string()]);
}

#[test]
fn list_packages_selects_by_arguments() {
    let db = sample_db();
    let total = list_packages(
        &db,
        &ListArgs { verbose: false, total_count: true, query: None },
    );
    assert_eq!(total, ListSelection::Total(2));
    let hit = list_packages(
        &db,
        &ListArgs { verbose: true, total_count: false, query: Some("bar".to_string()) },
    );
    match hit {
        ListSelection::Query(i) => assert_eq!(db.packages[i].0, "bar"),
        _ => panic!("expected the queried package"),
    }
    let miss = list_packages(
        &db,
        &ListArgs { verbose: false, total_count: false, query: Some("nope".to_string()) },
    );
    assert_eq!(miss, ListSelection::NotFound);
    let all = list_packages(&db, &ListArgs { verbose: false, total_count: false, query: None });
    assert_eq!(all, ListSelection::All);
}

#[test]
fn search_reports_found_and_indents_metadata() {
    let body = "name = \"p\"\ntype = \"binary\"".to_string();
    match search_package(&Some(body), &SearchArgs { log_metadata: true }) {
        SearchReport::Found { metadata } => {
            assert_eq!(metadata.as_deref(), Some("    name = \"p\"\n    type = \"binary\""));
        }
        _ => panic!("expected a hit"),
    }
    match search_package(&Some("x".to_string()), &SearchArgs { log_metadata: false }) {
        SearchReport::Found { metadata } => assert!(metadata.is_none()),
        _ => panic!("expected a hit"),
    }
    assert!(matches!(
        search_package(&None, &SearchArgs { log_metadata: true }),
        SearchReport::NotFound
    ));
}

#[test]
fn path_check_finds_the_bin_dir() {
    let entries = vec!["/usr/bin".to_string(), "/home/u/.eiipm/bin".to_string()];
    assert!(eiipm::run_checks::check_eiipm_in_path(&entries, "/home/u"));
    let entries = vec!["/usr/bin".to_string()];
    assert!(!eiipm::run_checks::check_eiipm_in_path(&entries, "/home/u"));
}

#[test]
fn validate_manifest_checks_the_kind() {
    let ok = eiipm::manifest::validate_manifest(
        "p".to_string(),
        &"library".to_string(),
        "https://example.com/o/r.git".to_string(),
        "c1".to_string(),
        vec![],
        None,
    )
    .unwrap();
    assert_eq!(ok.metadata.pkg_type, PackageKind::Library);
    assert_eq!(ok.metadata.name, "p");
    let err = eiipm::manifest::validate_manifest(
        "p".to_string(),
        &"plugin".to_string(),
        "s".to_string(),
        "c".to_string(),
        vec![],
        None,
    )
    .unwrap_err();
    assert_eq!(err, PmError::MalformedManifest);
}

#[test]
fn home_layout_derives_fixed_locations() {
    if let Some(l) = eiipm::layout::home_layout() {
        assert_eq!(l.cache_root, format!("{}/.eiipm/cache", l.home));
        assert_eq!(l.bin_dir, format!("{}/.eiipm/bin", l.home));
        assert_eq!(l.db_path, format!("{}/.local/share/eiipm/installed.toml", l.home));
        assert_eq!(l.eiipm_dir, format!("{}/.eiipm", l.home));
    }
}

#[test]
fn manifest_fetch_outcome_classifies_failure() {
    assert_eq!(
        eiipm::manifest::manifest_fetch_outcome(Some("body".to_string())).unwrap(),
        "body"
    );
    assert_eq!(
        eiipm::manifest::manifest_fetch_outcome(None).unwrap_err(),
        PmError::ManifestUnavailable
    );
}

#[test]
fn clear_cache_args_carry_force() {
    let args = eiipm::opts::ClearCacheArgs { force: true };
    assert!(args.force);
}

#[test]
fn install_scenario_produces_exactly_the_matched_files() {
    let meta = PackageMeta {
        name: "pkg".to_string(),
        pkg_type: PackageKind::Binary,
        src: "https://example.com/o/repo.git".to_string(),
        commit_hash: "c1".to_string(),
        files: vec![
            FileEntry::Flat("a.txt".to_string()),
            FileEntry::Flat("b/*.so".to_string()),
        ],
        build: None,
    };
    let plan = install_package("pkg", &meta, "/home/u", "/cwd", false).unwrap();
    let tree = vec![
        "a.txt".to_string(),
        "b/one.so".to_string(),
        "b/two.so".to_string(),
        "b/notes.md".to_string(),
    ];
    let actions = materialize_plan(&meta.files, &tree, &plan.target_base_dir).unwrap();
    let installed: Vec<String> = dests(&actions);
    assert_eq!(
        installed,
        vec![
            "/home/u/.eiipm/bin/a.txt".to_string(),
            "/home/u/.eiipm/bin/one.so".to_string(),
            "/home/u/.eiipm/bin/two.so".to_string(),
        ]
    );

    let mut db = PackageDB::new();
    record_install(&mut db, &meta, plan.repo_fs_path, installed.clone());
    let stored = db.get("pkg").unwrap();
    assert_eq!(stored.installed_files, installed);
    assert_eq!(stored.repo_fs_path, "/home/u/.eiipm/cache/repo");

    let again = materialize_plan(&meta.files, &tree, &plan.target_base_dir).unwrap();
    assert_eq!(dests(&again), installed);
}
