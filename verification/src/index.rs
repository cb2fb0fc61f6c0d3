//! Frame indices as the sequencer hands them to the gates.

use vstd::prelude::*;

verus! {

/// The mathematical value of a frame index: `None` while no frame is active,
/// else the position in the list of durations.
pub open spec fn index_view(index: Option<usize>) -> Option<nat> {
    match index {
        None => None,
        Some(i) => Some(i as nat),
    }
}

} // verus!
