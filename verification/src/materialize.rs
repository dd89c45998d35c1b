//! The file materializer: expands a manifest's file entries against
//! the synchronized source tree and plans every copy.
//!
//! Matching uses glob semantics over the tree's relative paths,
//! preserving enumeration order. A pattern may match nothing — unless
//! it names a file literally (no wildcard), which is then a missing
//! file. The planned destination paths become the uninstall manifest.

use vstd::prelude::*;
use vstd::seq_lib::group_seq_lib_default;
use crate::globpat::glob_matches;
use crate::globpat::has_wildcard;
use crate::globpat::glob_match;
use crate::globpat::is_glob;
use crate::manifest::FileEntry;
use crate::manifest::PmError;
use crate::manifest::entry_pattern;
use crate::paths::basename_of;
use crate::paths::basename;
use crate::paths::join;

verus! {

broadcast use group_seq_lib_default;

/// One planned copy: a source path relative to the synchronized
/// tree, and the absolute destination it is written to.
#[derive(Clone, Debug)]
pub struct CopyAction {
    pub src: String,
    pub dest: String,
}

/// The pairs (relative source, absolute destination) of a sequence
/// of copy actions.
pub open spec fn copies_view(s: Seq<CopyAction>) -> Seq<(Seq<char>, Seq<char>)> {
    s.map_values(|a: CopyAction| (a.src@, a.dest@))
}

/// Where a matched file `f` of an entry is copied, under `target`:
/// flat entries flatten to the basename; detailed entries use their
/// explicit destination, or mirror the pattern itself when absent.
pub open spec fn dest_of(e: FileEntry, f: Seq<char>, target: Seq<char>) -> Seq<char> {
    match e {
        FileEntry::Flat(p) => target + seq!['/'] + basename_of(f),
        FileEntry::Detailed { src, dest: Some(d) } => target + seq!['/'] + d@,
        FileEntry::Detailed { src, dest: None } => target + seq!['/'] + src@,
    }
}

/// The matching predicate of an entry's pattern.
pub open spec fn entry_pred(e: FileEntry) -> spec_fn(Seq<char>) -> bool {
    |f: Seq<char>| glob_matches(entry_pattern(e), f)
}

/// The copy an entry plans for one matched file.
pub open spec fn entry_map(e: FileEntry, target: Seq<char>) -> spec_fn(Seq<char>) -> (
    Seq<char>,
    Seq<char>,
) {
    |f: Seq<char>| (f, dest_of(e, f, target))
}

/// The copies one entry produces: every tree file its pattern
/// matches, in enumeration order.
pub open spec fn entry_copies(e: FileEntry, tree: Seq<Seq<char>>, target: Seq<char>) -> Seq<
    (Seq<char>, Seq<char>),
> {
    tree.filter(entry_pred(e)).map_values(entry_map(e, target))
}

/// An entry that names a file literally and matches nothing.
pub open spec fn entry_missing(e: FileEntry, tree: Seq<Seq<char>>) -> bool {
    !has_wildcard(entry_pattern(e)) && tree.filter(entry_pred(e)).len() == 0
}

/// The whole plan: the concatenated copies of the entries, or the
/// first missing file.
pub open spec fn plan_spec(
    entries: Seq<FileEntry>,
    tree: Seq<Seq<char>>,
    target: Seq<char>,
) -> Result<Seq<(Seq<char>, Seq<char>)>, PmError>
    decreases entries.len(),
{
    if entries.len() == 0 {
        Ok(Seq::empty())
    } else if entry_missing(entries[0], tree) {
        Err(PmError::MissingFile)
    } else {
        match plan_spec(entries.skip(1), tree, target) {
            Ok(rest) => Ok(entry_copies(entries[0], tree, target) + rest),
            Err(e) => Err(e),
        }
    }
}

/// A destination that begins with the target root and a separator.
pub open spec fn dest_prefixed(d: Seq<char>, target: Seq<char>) -> bool {
    d.len() > target.len() && d.take(target.len() as int) == target && d[target.len() as int]
        == '/'
}

proof fn lemma_entry_copies_prefixed(e: FileEntry, tree: Seq<Seq<char>>, target: Seq<char>)
    ensures
        forall|i: int|
            0 <= i < entry_copies(e, tree, target).len() ==> dest_prefixed(
                entry_copies(e, tree, target)[i].1,
                target,
            ),
{
    let copies = entry_copies(e, tree, target);
    assert forall|i: int| 0 <= i < copies.len() implies dest_prefixed(copies[i].1, target) by {
        let f = tree.filter(entry_pred(e))[i];
        assert(copies[i] == entry_map(e, target)(f));
        assert(copies[i].1 == dest_of(e, f, target));
        match e {
            FileEntry::Flat(p) => {
                assert((target + seq!['/'] + basename_of(f)).take(target.len() as int)
                    =~= target);
            },
            FileEntry::Detailed { src, dest: Some(d) } => {
                assert((target + seq!['/'] + d@).take(target.len() as int) =~= target);
            },
            FileEntry::Detailed { src, dest: None } => {
                assert((target + seq!['/'] + src@).take(target.len() as int) =~= target);
            },
        }
    }
}

/// Every destination a successful plan writes begins with the target
/// root followed by a separator: materialization lands under the
/// root chosen by the package's kind.
pub proof fn lemma_plan_dests_prefixed(
    entries: Seq<FileEntry>,
    tree: Seq<Seq<char>>,
    target: Seq<char>,
)
    ensures
        forall|v: Seq<(Seq<char>, Seq<char>)>|
            plan_spec(entries, tree, target) == Ok::<Seq<(Seq<char>, Seq<char>)>, PmError>(v)
                ==> forall|i: int| 0 <= i < v.len() ==> dest_prefixed(v[i].1, target),
    decreases entries.len(),
{
    if entries.len() == 0 {
        assert forall|v: Seq<(Seq<char>, Seq<char>)>|
            plan_spec(entries, tree, target) == Ok::<Seq<(Seq<char>, Seq<char>)>, PmError>(
                v,
            ) implies forall|i: int| 0 <= i < v.len() ==> dest_prefixed(v[i].1, target) by {
            assert(v =~= Seq::<(Seq<char>, Seq<char>)>::empty());
        }
    } else {
        lemma_plan_dests_prefixed(entries.skip(1), tree, target);
        lemma_entry_copies_prefixed(entries[0], tree, target);
        assert forall|v: Seq<(Seq<char>, Seq<char>)>|
            plan_spec(entries, tree, target) == Ok::<Seq<(Seq<char>, Seq<char>)>, PmError>(
                v,
            ) implies forall|i: int| 0 <= i < v.len() ==> dest_prefixed(v[i].1, target) by {
            if !entry_missing(entries[0], tree) {
                match plan_spec(entries.skip(1), tree, target) {
                    Ok(rest) => {
                        let ec = entry_copies(entries[0], tree, target);
                        assert(v == ec + rest);
                        assert forall|i: int| 0 <= i < v.len() implies dest_prefixed(
                            v[i].1,
                            target,
                        ) by {
                            if i < ec.len() {
                                assert(v[i] == ec[i]);
                            } else {
                                assert(v[i] == rest[i - ec.len()]);
                            }
                        }
                    },
                    Err(e) => {
                        assert(false);
                    },
                }
            }
        }
    }
}

/// The source pattern of an entry.
pub fn pattern_of(e: &FileEntry) -> (r: &String)
    ensures
        r@ == entry_pattern(*e),
{
    match e {
        FileEntry::Flat(p) => p,
        FileEntry::Detailed { src, dest } => src,
    }
}

/// Plans the copies of one entry.
fn expand_entry(e: &FileEntry, tree: &Vec<String>, target: &str) -> (r: Vec<CopyAction>)
    ensures
        copies_view(r@) == entry_copies(*e, tree.deep_view(), target@),
{
    let ghost pred = entry_pred(*e);
    let ghost tv = tree.deep_view();
    let pattern: &String = pattern_of(e);
    let mut out: Vec<CopyAction> = Vec::new();
    let mut j: usize = 0;
    proof {
        assert(tv.take(0) =~= Seq::<Seq<char>>::empty());
        assert(copies_view(out@) =~= entry_copies(*e, tv.take(0), target@));
    }
    while j < tree.len()
        invariant
            j <= tree.len(),
            tv == tree.deep_view(),
            pred == entry_pred(*e),
            pattern@ == entry_pattern(*e),
            copies_view(out@) =~= entry_copies(*e, tv.take(j as int), target@),
        decreases tree.len() - j,
    {
        let ghost prefix = tv.take(j as int);
        let f: &String = &tree[j];
        proof {
            assert(tv[j as int] == f@);
            assert(tv.take(j + 1) =~= prefix.push(f@));
            prefix.lemma_filter_push(f@, pred);
        }
        if glob_match(pattern.as_str(), f.as_str()) {
            let dest: String = match e {
                FileEntry::Flat(_) => {
                    let b = basename(f.as_str());
                    join(target, b.as_str())
                },
                FileEntry::Detailed { src, dest } => {
                    match dest {
                        Some(d) => join(target, d.as_str()),
                        None => join(target, src.as_str()),
                    }
                },
            };
            let ghost pre = out@;
            out.push(CopyAction { src: f.clone(), dest });
            proof {
                assert(pred(f@));
                assert(tv.take(j + 1).filter(pred) == prefix.filter(pred).push(f@));
                assert(copies_view(out@) =~= copies_view(pre).push(
                    (f@, dest_of(*e, f@, target@)),
                ));
                assert(entry_copies(*e, tv.take(j + 1), target@) =~= entry_copies(
                    *e,
                    prefix,
                    target@,
                ).push((f@, dest_of(*e, f@, target@))));
            }
        } else {
            proof {
                assert(!pred(f@));
                assert(tv.take(j + 1).filter(pred) == prefix.filter(pred));
                assert(entry_copies(*e, tv.take(j + 1), target@) =~= entry_copies(
                    *e,
                    prefix,
                    target@,
                ));
            }
        }
        j = j + 1;
    }
    proof {
        assert(tv.take(tree.len() as int) =~= tv);
    }
    out
}

/// Plans every copy for `entries` against the tree's relative file
/// paths, under the target root. Returns the actions in entry order,
/// or the first literally-named entry that matched nothing.
pub fn materialize_plan(entries: &Vec<FileEntry>, tree: &Vec<String>, target: &str) -> (r:
    Result<Vec<CopyAction>, PmError>)
    ensures
        match r {
            Ok(v) => plan_spec(entries@, tree.deep_view(), target@) == Ok::<
                Seq<(Seq<char>, Seq<char>)>,
                PmError,
            >(copies_view(v@)),
            Err(e) => plan_spec(entries@, tree.deep_view(), target@) == Err::<
                Seq<(Seq<char>, Seq<char>)>,
                PmError,
            >(e),
        },
{
    let ghost tv = tree.deep_view();
    let mut acc: Vec<CopyAction> = Vec::new();
    let mut i: usize = 0;
    proof {
        assert(entries@.skip(0) =~= entries@);
        assert(copies_view(acc@) =~= Seq::<(Seq<char>, Seq<char>)>::empty());
    }
    while i < entries.len()
        invariant
            i <= entries.len(),
            tv == tree.deep_view(),
            forall|rest: Seq<(Seq<char>, Seq<char>)>|
                plan_spec(entries@.skip(i as int), tv, target@) == Ok::<
                    Seq<(Seq<char>, Seq<char>)>,
                    PmError,
                >(rest) ==> plan_spec(entries@, tv, target@) == Ok::<
                    Seq<(Seq<char>, Seq<char>)>,
                    PmError,
                >(copies_view(acc@) + rest),
            forall|er: PmError|
                plan_spec(entries@.skip(i as int), tv, target@) == Err::<
                    Seq<(Seq<char>, Seq<char>)>,
                    PmError,
                >(er) ==> plan_spec(entries@, tv, target@) == Err::<
                    Seq<(Seq<char>, Seq<char>)>,
                    PmError,
                >(er),
        decreases entries.len() - i,
    {
        let ghost pre = acc@;
        let e: &FileEntry = &entries[i];
        proof {
            assert(entries@.skip(i as int)[0] == entries@[i as int]);
            assert(entries@.skip(i as int).skip(1) =~= entries@.skip(i + 1));
        }
        let mut copies = expand_entry(e, tree, target);
        if copies.len() == 0 {
            let pattern: &String = pattern_of(e);
            if !is_glob(pattern.as_str()) {
                proof {
                    let pred = entry_pred(*e);
                    assert(copies_view(copies@).len() == 0);
                    assert(tv.filter(pred).len() == 0);
                    assert(entry_missing(entries@[i as int], tv));
                    assert(plan_spec(entries@.skip(i as int), tv, target@) == Err::<
                        Seq<(Seq<char>, Seq<char>)>,
                        PmError,
                    >(PmError::MissingFile));
                }
                return Err(PmError::MissingFile);
            }
        }
        proof {
            let pred = entry_pred(*e);
            if copies@.len() > 0 {
                assert(copies_view(copies@).len() > 0);
                assert(tv.filter(pred).len() > 0);
            }
            assert(!entry_missing(entries@[i as int], tv));
        }
        let ghost added = copies@;
        acc.append(&mut copies);
        proof {
            assert(acc@ =~= pre + added);
            assert(copies_view(acc@) =~= copies_view(pre) + entry_copies(
                entries@[i as int],
                tv,
                target@,
            ));
            assert forall|rest: Seq<(Seq<char>, Seq<char>)>|
                plan_spec(entries@.skip(i + 1), tv, target@) == Ok::<
                    Seq<(Seq<char>, Seq<char>)>,
                    PmError,
                >(rest) implies plan_spec(entries@, tv, target@) == Ok::<
                Seq<(Seq<char>, Seq<char>)>,
                PmError,
            >(copies_view(acc@) + rest) by {
                let ec = entry_copies(entries@[i as int], tv, target@);
                assert(plan_spec(entries@.skip(i as int), tv, target@) == Ok::<
                    Seq<(Seq<char>, Seq<char>)>,
                    PmError,
                >(ec + rest));
                assert(copies_view(pre) + (ec + rest) =~= copies_view(acc@) + rest);
            }
        }
        i = i + 1;
    }
    proof {
        assert(entries@.skip(entries@.len() as int) =~= Seq::<FileEntry>::empty());
        assert(plan_spec(entries@.skip(entries@.len() as int), tv, target@) == Ok::<
            Seq<(Seq<char>, Seq<char>)>,
            PmError,
        >(Seq::empty()));
        assert(copies_view(acc@) + Seq::<(Seq<char>, Seq<char>)>::empty() =~= copies_view(acc@));
    }
    Ok(acc)
}

} // verus!
