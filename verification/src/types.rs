//! Types shared by the checks of the tool's prerequisites.

use vstd::prelude::*;

verus! {

/// The result of one check: what was checked, how it went, and what to do
/// where it failed.
#[derive(Debug, Clone)]
pub struct CheckResult {
    pub name: String,
    pub passed: bool,
    pub detail: String,
    pub fix_hint: Option<String>,
}

/// Whether every check passed.
pub fn all_passed(results: &Vec<CheckResult>) -> (r: bool)
    ensures
        r == forall|i: int| 0 <= i < results.len() ==> (#[trigger] results@[i]).passed,
{
    let mut i: usize = 0;
    while i < results.len()
        invariant
            i <= results.len(),
            forall|j: int| 0 <= j < i ==> (#[trigger] results@[j]).passed,
        decreases results.len() - i,
    {
        if !results[i].passed {
            return false;
        }
        i = i + 1;
    }
    true
}

} // verus!
