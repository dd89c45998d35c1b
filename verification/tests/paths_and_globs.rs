use eiipm::globpat::{glob_match, is_glob};
use eiipm::layout::{
    bin_dir, cache_root, db_path, lib_dir, manifest_url, repo_fs_path, repo_name, target_root,
};
use eiipm::manifest::{kind_of, PackageKind};
use eiipm::paths::{basename, ends_with, join, split_segments, strictly_under};
use eiipm::search::indent_lines;

#[test]
fn split_segments_counts_separators() {
    let segs = split_segments("a/b/c");
    assert_eq!(segs, vec!["a".to_string(), "b".to_string(), "c".to_string()]);
    let segs = split_segments("/a/");
    assert_eq!(segs, vec!["".to_string(), "a".to_string(), "".to_string()]);
    let segs = split_segments("");
    assert_eq!(segs, vec!["".to_string()]);
}

#[test]
fn containment_requires_whole_segments() {
    assert!(strictly_under("/home/u/.eiipm/cache/repo", "/home/u/.eiipm/cache"));
    assert!(strictly_under("/home/u/.eiipm/cache/repo/sub", "/home/u/.eiipm/cache"));
    assert!(!strictly_under("/home/u/.eiipm/cache", "/home/u/.eiipm/cache"));
    assert!(!strictly_under("/home/u/.eiipm/cachex", "/home/u/.eiipm/cache"));
    assert!(!strictly_under("/etc", "/home/u/.eiipm/cache"));
    assert!(!strictly_under("/home/u", "/home/u/.eiipm/cache"));
}

#[test]
fn basename_is_last_segment() {
    assert_eq!(basename("a/b/c.txt"), "c.txt");
    assert_eq!(basename("c.txt"), "c.txt");
    assert_eq!(basename("a/b/"), "");
}

#[test]
fn ends_with_matches_suffix() {
    assert!(ends_with("repo.git", ".git"));
    assert!(!ends_with("repo.gitx", ".git"));
    assert!(!ends_with("it", ".git"));
}

#[test]
fn join_inserts_one_separator() {
    assert_eq!(join("/a/b", "c"), "/a/b/c");
}

#[test]
fn repo_name_strips_git_suffix() {
    assert_eq!(repo_name("https://example.com/owner/repo.git"), "repo");
    assert_eq!(repo_name("https://example.com/owner/repo"), "repo");
}

#[test]
fn layout_paths_are_fixed_under_home() {
    assert_eq!(cache_root("/home/u"), "/home/u/.eiipm/cache");
    assert_eq!(bin_dir("/home/u"), "/home/u/.eiipm/bin");
    assert_eq!(lib_dir("/home/u", "pkg"), "/home/u/.eiipm/lib/pkg");
    assert_eq!(db_path("/home/u"), "/home/u/.local/share/eiipm/installed.toml");
    assert_eq!(
        repo_fs_path("/home/u", "https://example.com/o/repo.git"),
        "/home/u/.eiipm/cache/repo"
    );
    assert_eq!(
        manifest_url("mypkg"),
        "https://raw.githubusercontent.com/Ewwii-sh/eii-manifests/main/manifests/mypkg.toml"
    );
}

#[test]
fn target_root_follows_kind() {
    assert_eq!(
        target_root(PackageKind::Binary, "/home/u", "/cwd", "p"),
        "/home/u/.eiipm/bin"
    );
    assert_eq!(target_root(PackageKind::Theme, "/home/u", "/cwd", "p"), "/cwd");
    assert_eq!(
        target_root(PackageKind::Library, "/home/u", "/cwd", "p"),
        "/home/u/.eiipm/lib/p"
    );
}

#[test]
fn kind_of_knows_the_three_kinds() {
    assert_eq!(kind_of("binary"), Some(PackageKind::Binary));
    assert_eq!(kind_of("theme"), Some(PackageKind::Theme));
    assert_eq!(kind_of("library"), Some(PackageKind::Library));
    assert_eq!(kind_of("plugin"), None);
    assert_eq!(kind_of(""), None);
}

#[test]
fn glob_star_stays_within_a_segment() {
    assert!(glob_match("b/*.so", "b/x.so"));
    assert!(glob_match("*.txt", "a.txt"));
    assert!(!glob_match("*.so", "b/x.so"));
    assert!(!glob_match("b/*.so", "b/sub/x.so"));
    assert!(glob_match("a.txt", "a.txt"));
    assert!(!glob_match("a.txt", "b.txt"));
}

#[test]
fn glob_double_star_crosses_segments() {
    assert!(glob_match("**/x.so", "x.so"));
    assert!(glob_match("**/x.so", "a/b/x.so"));
    assert!(glob_match("a/**/z.txt", "a/z.txt"));
    assert!(glob_match("a/**/z.txt", "a/b/c/z.txt"));
    assert!(!glob_match("a/**/z.txt", "b/z.txt"));
}

#[test]
fn is_glob_detects_wildcards() {
    assert!(is_glob("b/*.so"));
    assert!(is_glob("**"));
    assert!(!is_glob("plain/path.txt"));
}

#[test]
fn indent_lines_pads_each_line() {
    assert_eq!(indent_lines("a\nb", 4), "    a\n    b");
    assert_eq!(indent_lines("a\nb\n", 2), "  a\n  b");
    assert_eq!(indent_lines("one", 3), "   one");
    assert_eq!(indent_lines("", 4), "");
    assert_eq!(indent_lines("a\r\nb", 1), " a\n b");
}
