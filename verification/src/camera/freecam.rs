//! Tab cycling of the car the spectator camera follows.
use vstd::prelude::*;

verus! {

/// Tab: the camera moves on to the next car body in `grids` (by scene id),
/// wrapping around; with no bodies nothing changes.  Returns the new
/// position in the list and the body to follow.
pub fn cycle_follow(follow_index: usize, grids: &Vec<u64>) -> (r: Option<(usize, u64)>)
    requires
        follow_index < usize::MAX,
    ensures
        grids@.len() == 0 ==> r is None,
        grids@.len() > 0 ==> r == Some((
            ((follow_index + 1) % (grids@.len() as int)) as usize,
            grids@[(follow_index + 1) % (grids@.len() as int)],
        )),
{
    if grids.len() == 0 {
        return None;
    }
    let i: usize = (follow_index + 1) % grids.len();
    Some((i, grids[i]))
}

} // verus!
