//! The update-check workflow: which installed packages' manifests
//! advertise a revision other than the installed one.

use vstd::prelude::*;
use vstd::seq_lib::group_seq_lib_default;
use crate::db::PackageDB;
use crate::manifest::str_eq;

verus! {

broadcast use group_seq_lib_default;

/// A fetched report `(name, advertised revision)` names a package
/// that needs an update: it is recorded, and the advertised revision
/// differs from the installed one.
pub open spec fn outdated_pred(db: PackageDB) -> spec_fn((String, String)) -> bool {
    |p: (String, String)|
        db.spec_contains(p.0@) && db.spec_get(p.0@).installed_hash@ != p.1@
}

/// The name of a report.
pub open spec fn report_name() -> spec_fn((String, String)) -> Seq<char> {
    |p: (String, String)| p.0@
}

/// Given the advertised revision fetched for each package of
/// interest, returns — in input order — the names whose stored
/// record exists and no longer matches. Reports for unrecorded names
/// are ignored.
pub fn check_package_updates(db: &PackageDB, reports: &Vec<(String, String)>) -> (r: Vec<
    String,
>)
    requires
        db.wf(),
    ensures
        r.deep_view() == reports@.filter(outdated_pred(*db)).map_values(report_name()),
{
    let ghost pred = outdated_pred(*db);
    let ghost rv = reports@;
    let mut out: Vec<String> = Vec::new();
    let mut i: usize = 0;
    proof {
        assert(rv.take(0) =~= Seq::<(String, String)>::empty());
        assert(out.deep_view() =~= rv.take(0).filter(pred).map_values(report_name()));
    }
    while i < reports.len()
        invariant
            i <= reports.len(),
            rv == reports@,
            pred == outdated_pred(*db),
            db.wf(),
            out.deep_view() =~= rv.take(i as int).filter(pred).map_values(report_name()),
        decreases reports.len() - i,
    {
        let ghost prefix = rv.take(i as int);
        proof {
            assert(rv[i as int] == reports@[i as int]);
            assert(rv.take(i + 1) =~= prefix.push(rv[i as int]));
            prefix.lemma_filter_push(rv[i as int], pred);
        }
        let name: &String = &reports[i].0;
        let hash: &String = &reports[i].1;
        let outdated = match db.get(name.as_str()) {
            Some(pkg) => !str_eq(pkg.installed_hash.as_str(), hash.as_str()),
            None => false,
        };
        if outdated {
            let ghost pre = out.deep_view();
            out.push(name.clone());
            proof {
                assert(pred(rv[i as int]));
                assert(out.deep_view() =~= pre.push(name@));
            }
        } else {
            proof {
                assert(!pred(rv[i as int]));
            }
        }
        i = i + 1;
    }
    proof {
        assert(rv.take(reports.len() as int) =~= rv);
    }
    out
}

} // verus!
