//! Which file-system events concern the edited file.

use vstd::prelude::*;

verus! {

/// An event concerns the edited file when it modifies or creates something
/// and one of the paths it names is the file's.
pub open spec fn concerns(modify_or_create: bool, paths_match: Seq<bool>) -> bool {
    modify_or_create && exists|i: int| 0 <= i < paths_match.len() && paths_match[i]
}

/// Whether an event concerns the edited file, given whether it is a
/// modification or a creation and, for each path it names, whether that
/// path is the file's (see `concerns`).
pub fn event_concerns(modify_or_create: bool, paths_match: &Vec<bool>) -> (b: bool)
    ensures
        b == concerns(modify_or_create, paths_match@),
{
    if !modify_or_create {
        return false;
    }
    let mut i: usize = 0;
    while i < paths_match.len()
        invariant
            modify_or_create,
            i <= paths_match@.len(),
            forall|j: int| 0 <= j < i ==> !paths_match@[j],
        decreases paths_match@.len() - i,
    {
        if paths_match[i] {
            assert(paths_match@[i as int]);
            return true;
        }
        i += 1;
    }
    assert(!(exists|i: int| 0 <= i < paths_match@.len() && paths_match@[i]));
    false
}

} // verus!
