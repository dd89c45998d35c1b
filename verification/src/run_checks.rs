//! The startup check: whether the managed binary directory is on the
//! search path.

use vstd::prelude::*;
use crate::layout::bin_dir_of;
use crate::layout::bin_dir;
use crate::manifest::str_eq;

verus! {

/// Whether the managed binary directory under `home` appears among
/// the search-path entries; when it does not, installed binaries
/// will not be found and the caller warns.
pub fn check_eiipm_in_path(path_entries: &Vec<String>, home: &str) -> (r: bool)
    ensures
        r == exists|i: int|
            0 <= i < path_entries.deep_view().len() && path_entries.deep_view()[i] == bin_dir_of(
                home@,
            ),
{
    let target = bin_dir(home);
    let mut i: usize = 0;
    while i < path_entries.len()
        invariant
            i <= path_entries.len(),
            target@ == bin_dir_of(home@),
            forall|j: int| 0 <= j < i ==> path_entries.deep_view()[j] != bin_dir_of(home@),
        decreases path_entries.len() - i,
    {
        if str_eq(path_entries[i].as_str(), target.as_str()) {
            proof {
                assert(path_entries.deep_view()[i as int] == path_entries@[i as int]@);
            }
            return true;
        }
        proof {
            assert(path_entries.deep_view()[i as int] == path_entries@[i as int]@);
        }
        i = i + 1;
    }
    false
}

} // verus!
