//! Exit-code propagation: the harness exits with the child's exit code,
//! with 1 standing in when the run was interrupted or the child was
//! terminated by a signal.

use vstd::prelude::*;

verus! {

/// The exit code the harness must report for a finished run.
pub open spec fn spec_harness_exit(child_code: Option<i32>, interrupted: bool) -> i32 {
    if interrupted {
        1
    } else {
        match child_code {
            Some(c) => c,
            None => 1,
        }
    }
}

/// Computes the process exit code from the child's outcome.
///
/// `child_code` is the child's exit code, or `None` when the child was
/// terminated by a signal; `interrupted` records whether the run was stopped
/// by an interrupt from the operating system.
pub fn harness_exit(child_code: Option<i32>, interrupted: bool) -> (code: i32)
    ensures
        code == spec_harness_exit(child_code, interrupted),
{
    if interrupted {
        1
    } else {
        match child_code {
            Some(c) => c,
            None => 1,
        }
    }
}

} // verus!
