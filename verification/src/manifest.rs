//! Manifest data: package kind, file entries, and the parsed manifest.
//!
//! A manifest describes one package: where its source lives, which
//! commit to install, which files to copy, and an optional build
//! command. The kind selects the install target root and whether the
//! package is tracked in the database.

use vstd::prelude::*;

verus! {

/// The three package kinds. `Theme` installs into the invoking
/// process's working directory and is never recorded in the database.
#[derive(Clone, Copy, PartialEq, Eq, Structural, Debug)]
pub enum PackageKind {
    Binary,
    Theme,
    Library,
}

/// Why an operation on a single package failed.
#[derive(Clone, Copy, PartialEq, Eq, Structural, Debug)]
pub enum PmError {
    /// The manifest could not be fetched.
    ManifestUnavailable,
    /// The manifest body does not follow the expected schema.
    MalformedManifest,
    /// Clone, fetch or checkout failed in the version-control layer.
    SyncError,
    /// A deletion target lies outside the cache root; always fatal.
    UnsafeDeletion,
    /// The build command exited with a non-zero status.
    BuildFailed,
    /// A literally-named file entry matched nothing in the source tree.
    MissingFile,
    /// The named package has no database record.
    NotInstalled,
}

/// One entry of a manifest's file list. `Flat` copies each match to
/// the target root under its basename; `Detailed` copies to an
/// explicit destination, or mirrors the pattern path when absent.
#[derive(Debug)]
pub enum FileEntry {
    Flat(String),
    Detailed { src: String, dest: Option<String> },
}

impl Clone for FileEntry {
    fn clone(&self) -> (r: FileEntry)
        ensures
            r == *self,
    {
        match self {
            FileEntry::Flat(p) => FileEntry::Flat(p.clone()),
            FileEntry::Detailed { src, dest } => FileEntry::Detailed {
                src: src.clone(),
                dest: match dest {
                    Some(d) => Some(d.clone()),
                    None => None,
                },
            },
        }
    }
}

/// The source pattern of an entry.
pub open spec fn entry_pattern(e: FileEntry) -> Seq<char> {
    match e {
        FileEntry::Flat(p) => p@,
        FileEntry::Detailed { src, dest } => src@,
    }
}

/// The `metadata` table of a manifest, validated.
#[derive(Clone, Debug)]
pub struct PackageMeta {
    pub name: String,
    pub pkg_type: PackageKind,
    pub src: String,
    pub commit_hash: String,
    pub files: Vec<FileEntry>,
    pub build: Option<String>,
}

/// A whole manifest document: a single `metadata` table.
#[derive(Clone, Debug)]
pub struct PackageRootMeta {
    pub metadata: PackageMeta,
}

/// The kind named by a manifest's `type` field, if it is one of the
/// three known kinds.
pub open spec fn spec_kind_of(s: Seq<char>) -> Option<PackageKind> {
    if s == "binary"@ {
        Some(PackageKind::Binary)
    } else if s == "theme"@ {
        Some(PackageKind::Theme)
    } else if s == "library"@ {
        Some(PackageKind::Library)
    } else {
        None
    }
}

/// Compares two strings by their characters.
pub fn str_eq(a: &str, b: &str) -> (r: bool)
    ensures
        r == (a@ == b@),
{
    a.to_owned().eq(&b.to_owned())
}

/// Parses a manifest `type` field.
pub fn kind_of(s: &str) -> (r: Option<PackageKind>)
    ensures
        r == spec_kind_of(s@),
{
    if str_eq(s, "binary") {
        Some(PackageKind::Binary)
    } else if str_eq(s, "theme") {
        Some(PackageKind::Theme)
    } else if str_eq(s, "library") {
        Some(PackageKind::Library)
    } else {
        None
    }
}

/// Classifies the outcome of fetching a manifest: a body when the
/// request succeeded, `ManifestUnavailable` when it did not.
pub fn manifest_fetch_outcome(fetched: Option<String>) -> (r: Result<String, PmError>)
    ensures
        match r {
            Ok(body) => fetched == Some(body),
            Err(e) => e == PmError::ManifestUnavailable && fetched is None,
        },
{
    match fetched {
        Some(body) => Ok(body),
        None => Err(PmError::ManifestUnavailable),
    }
}

/// Validates the raw fields of a fetched manifest into a
/// `PackageRootMeta`. The only schema rule not already enforced by
/// the shape of the arguments is the `type` field: an unknown kind is
/// a malformed manifest.
pub fn validate_manifest(
    name: String,
    pkg_type: &String,
    src: String,
    commit_hash: String,
    files: Vec<FileEntry>,
    build: Option<String>,
) -> (r: Result<PackageRootMeta, PmError>)
    ensures
        match r {
            Ok(m) => {
                &&& spec_kind_of(pkg_type@) == Some(m.metadata.pkg_type)
                &&& m.metadata.name == name
                &&& m.metadata.src == src
                &&& m.metadata.commit_hash == commit_hash
                &&& m.metadata.files == files
                &&& m.metadata.build == build
            },
            Err(e) => e == PmError::MalformedManifest && spec_kind_of(pkg_type@) is None,
        },
{
    match kind_of(pkg_type.as_str()) {
        Some(kind) => Ok(
            PackageRootMeta {
                metadata: PackageMeta {
                    name,
                    pkg_type: kind,
                    src,
                    commit_hash,
                    files,
                    build,
                },
            },
        ),
        None => Err(PmError::MalformedManifest),
    }
}

} // verus!
