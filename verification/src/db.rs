//! The package database: a durable mapping from package name to
//! installation record.
//!
//! The database is held as an association list with unique names; its
//! mathematical content is the map from name to record. It is read in
//! full, mutated in memory, and rewritten in full by the surrounding
//! binary.

use vstd::prelude::*;
use crate::manifest::FileEntry;
use crate::manifest::PackageKind;

verus! {

/// The persistent record of one installed, non-theme package.
#[derive(Clone, Debug)]
pub struct InstalledPackage {
    /// Where the synchronized source tree lives; always inside the
    /// cache root.
    pub repo_fs_path: String,
    /// The concrete paths written by the last materialization; the
    /// only authoritative list of what uninstall may remove.
    pub installed_files: Vec<String>,
    /// The file entries used, kept so update can re-materialize
    /// without re-fetching the manifest.
    pub copy_files: Vec<FileEntry>,
    pub pkg_type: PackageKind,
    pub upstream_src: String,
    pub installed_hash: String,
    pub manifest_url: String,
    pub build_command: Option<String>,
}

/// The database: one record per installed package name.
pub struct PackageDB {
    pub packages: Vec<(String, InstalledPackage)>,
}

impl PackageDB {
    /// Names in record order.
    pub open spec fn names(self) -> Seq<Seq<char>> {
        self.packages@.map_values(|p: (String, InstalledPackage)| p.0@)
    }

    /// Well-formed: no name occurs twice.
    pub open spec fn wf(self) -> bool {
        forall|i: int, j: int|
            0 <= i < j < self.packages@.len() ==> self.packages@[i].0@ != self.packages@[j].0@
    }

    pub open spec fn spec_contains(self, n: Seq<char>) -> bool {
        exists|i: int| 0 <= i < self.packages@.len() && self.packages@[i].0@ == n
    }

    pub open spec fn spec_index_of(self, n: Seq<char>) -> int {
        choose|i: int| 0 <= i < self.packages@.len() && self.packages@[i].0@ == n
    }

    pub open spec fn spec_get(self, n: Seq<char>) -> InstalledPackage {
        self.packages@[self.spec_index_of(n)].1
    }

    /// The database as a map from name to record.
    pub open spec fn as_map(self) -> Map<Seq<char>, InstalledPackage> {
        Map::new(|n: Seq<char>| self.spec_contains(n), |n: Seq<char>| self.spec_get(n))
    }

    /// In a well-formed database, a record's position is determined
    /// by its name.
    pub proof fn lemma_index_unique(self, i: int)
        requires
            self.wf(),
            0 <= i < self.packages@.len(),
        ensures
            self.spec_index_of(self.packages@[i].0@) == i,
    {
        let n = self.packages@[i].0@;
        assert(self.spec_contains(n));
        let j = self.spec_index_of(n);
        if j < i {
            assert(self.packages@[j].0@ != self.packages@[i].0@);
        } else if j > i {
            assert(self.packages@[i].0@ != self.packages@[j].0@);
        }
    }

    pub fn new() -> (r: PackageDB)
        ensures
            r.wf(),
            r.as_map() == Map::<Seq<char>, InstalledPackage>::empty(),
            r.packages@.len() == 0,
    {
        let r = PackageDB { packages: Vec::new() };
        proof {
            assert(r.as_map() =~= Map::<Seq<char>, InstalledPackage>::empty());
        }
        r
    }

    /// The position of `name`, if it is recorded.
    pub fn find(&self, name: &str) -> (r: Option<usize>)
        ensures
            match r {
                Some(i) => i < self.packages@.len() && self.packages@[i as int].0@ == name@,
                None => !self.spec_contains(name@),
            },
    {
        let mut i: usize = 0;
        while i < self.packages.len()
            invariant
                i <= self.packages@.len(),
                forall|j: int| 0 <= j < i ==> self.packages@[j].0@ != name@,
            decreases self.packages@.len() - i,
        {
            if crate::manifest::str_eq(self.packages[i].0.as_str(), name) {
                return Some(i);
            }
            i = i + 1;
        }
        None
    }

    /// The record of `name`, if any.
    pub fn get(&self, name: &str) -> (r: Option<&InstalledPackage>)
        requires
            self.wf(),
        ensures
            match r {
                Some(p) => self.spec_contains(name@) && *p == self.spec_get(name@),
                None => !self.spec_contains(name@),
            },
    {
        match self.find(name) {
            Some(i) => {
                proof {
                    self.lemma_index_unique(i as int);
                }
                Some(&self.packages[i].1)
            },
            None => None,
        }
    }

    /// Inserts or replaces the record of `name`.
    pub fn upsert(&mut self, name: String, pkg: InstalledPackage)
        requires
            old(self).wf(),
        ensures
            final(self).wf(),
            final(self).as_map() == old(self).as_map().insert(name@, pkg),
    {
        let ghost pre = *self;
        match self.find(name.as_str()) {
            Some(i) => {
                self.packages[i] = (name, pkg);
                proof {
                    assert(self.wf());
                    assert forall|n: Seq<char>| true implies pre.spec_contains(n)
                        == self.spec_contains(n) by {
                        if pre.spec_contains(n) {
                            let w = pre.spec_index_of(n);
                            if w == i {
                                assert(self.packages@[i as int].0@ == n);
                            } else {
                                assert(self.packages@[w].0@ == n);
                            }
                        }
                        if self.spec_contains(n) {
                            let w = self.spec_index_of(n);
                            if w == i {
                                assert(pre.packages@[i as int].0@ == n);
                            } else {
                                assert(pre.packages@[w].0@ == n);
                            }
                        }
                    }
                    assert forall|n: Seq<char>| self.spec_contains(n) implies self.spec_get(n)
                        == (if n == name@ {
                        pkg
                    } else {
                        pre.spec_get(n)
                    }) by {
                        let w = self.spec_index_of(n);
                        assert(0 <= w < self.packages@.len() && self.packages@[w].0@ == n);
                        self.lemma_index_unique(w);
                        if n == name@ {
                            assert(self.packages@[i as int].0@ == n);
                            self.lemma_index_unique(i as int);
                        } else {
                            assert(w != i);
                            assert(pre.packages@[w].0@ == n);
                            pre.lemma_index_unique(w);
                        }
                    }
                    assert(self.as_map() =~= pre.as_map().insert(name@, pkg));
                }
            },
            None => {
                let ghost n0 = name@;
                self.packages.push((name, pkg));
                proof {
                    let len = pre.packages@.len() as int;
                    assert(self.packages@ =~= pre.packages@.push((name, pkg)));
                    assert forall|i: int, j: int|
                        0 <= i < j < self.packages@.len() implies self.packages@[i].0@
                        != self.packages@[j].0@ by {
                        if j == len {
                            assert(!pre.spec_contains(n0));
                            assert(pre.packages@[i].0@ != n0);
                        }
                    }
                    assert forall|n: Seq<char>| self.spec_contains(n) implies self.spec_get(n)
                        == (if n == n0 {
                        pkg
                    } else {
                        pre.spec_get(n)
                    }) by {
                        let w = self.spec_index_of(n);
                        assert(0 <= w < self.packages@.len() && self.packages@[w].0@ == n);
                        self.lemma_index_unique(w);
                        if n == n0 {
                            assert(self.packages@[len].0@ == n);
                            self.lemma_index_unique(len);
                        } else {
                            assert(w != len);
                            assert(pre.packages@[w].0@ == n);
                            pre.lemma_index_unique(w);
                        }
                    }
                    assert forall|n: Seq<char>| pre.spec_contains(n) implies self.spec_contains(
                        n,
                    ) by {
                        let w = pre.spec_index_of(n);
                        assert(self.packages@[w].0@ == n);
                    }
                    assert forall|n: Seq<char>| self.spec_contains(n) implies n == n0
                        || pre.spec_contains(n) by {
                        let w = self.spec_index_of(n);
                        if w < len {
                            assert(pre.packages@[w].0@ == n);
                        }
                    }
                    assert(self.packages@[len].0@ == n0);
                    assert(self.spec_contains(n0));
                    assert(self.as_map() =~= pre.as_map().insert(n0, pkg));
                }
            },
        }
    }

    /// Removes the record of `name`, returning it if it was present.
    pub fn remove(&mut self, name: &str) -> (r: Option<InstalledPackage>)
        requires
            old(self).wf(),
        ensures
            final(self).wf(),
            match r {
                Some(p) => {
                    &&& old(self).spec_contains(name@)
                    &&& p == old(self).spec_get(name@)
                    &&& final(self).as_map() == old(self).as_map().remove(name@)
                },
                None => {
                    &&& !old(self).spec_contains(name@)
                    &&& *final(self) == *old(self)
                },
            },
    {
        let ghost pre = *self;
        match self.find(name) {
            Some(i) => {
                proof {
                    pre.lemma_index_unique(i as int);
                }
                let (_, pkg) = self.packages.remove(i);
                proof {
                    let len = pre.packages@.len() as int;
                    assert forall|a: int, b: int|
                        0 <= a < b < self.packages@.len() implies self.packages@[a].0@
                        != self.packages@[b].0@ by {
                        let a0 = if a < i { a } else { a + 1 };
                        let b0 = if b < i { b } else { b + 1 };
                        assert(self.packages@[a] == pre.packages@[a0]);
                        assert(self.packages@[b] == pre.packages@[b0]);
                    }
                    assert forall|n: Seq<char>| self.spec_contains(n) implies n != name@
                        && pre.spec_contains(n) && self.spec_get(n) == pre.spec_get(n) by {
                        let w = self.spec_index_of(n);
                        assert(0 <= w < self.packages@.len() && self.packages@[w].0@ == n);
                        self.lemma_index_unique(w);
                        let w0 = if w < i { w } else { w + 1 };
                        assert(self.packages@[w] == pre.packages@[w0]);
                        pre.lemma_index_unique(w0);
                        assert(w0 != i);
                    }
                    assert forall|n: Seq<char>|
                        pre.spec_contains(n) && n != name@ implies self.spec_contains(n) by {
                        let w0 = pre.spec_index_of(n);
                        pre.lemma_index_unique(w0);
                        let w = if w0 < i { w0 } else { w0 - 1 };
                        assert(self.packages@[w] == pre.packages@[w0]);
                    }
                    assert(self.as_map() =~= pre.as_map().remove(name@));
                }
                Some(pkg)
            },
            None => None,
        }
    }

    /// All package names, in record order.
    pub fn package_names(&self) -> (r: Vec<String>)
        ensures
            r.deep_view() == self.names(),
    {
        let mut r: Vec<String> = Vec::new();
        let mut i: usize = 0;
        while i < self.packages.len()
            invariant
                i <= self.packages@.len(),
                r.deep_view() =~= self.names().take(i as int),
            decreases self.packages@.len() - i,
        {
            let ghost pre = r.deep_view();
            r.push(self.packages[i].0.clone());
            proof {
                assert(r.deep_view() =~= pre.push(self.packages@[i as int].0@));
                assert(self.names().take(i + 1) =~= self.names().take(i as int).push(
                    self.names()[i as int],
                ));
            }
            i = i + 1;
        }
        proof {
            assert(self.names().take(self.packages@.len() as int) =~= self.names());
        }
        r
    }

    /// The number of recorded packages.
    pub fn count(&self) -> (r: usize)
        ensures
            r == self.packages@.len(),
    {
        self.packages.len()
    }
}

} // verus!
