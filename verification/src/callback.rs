//! Publishing after a run: done by the container's entry point, not here.

use vstd::prelude::*;

verus! {

/// Does nothing: results are published by the entry point of the container
/// that runs the tool.
pub fn maybe_publish_results() {
}

} // verus!
