//! The start of the program with the user's session.

use vstd::prelude::*;

verus! {

/// The name under which the program registers itself to start with the
/// session.
pub fn auto_launch_task_name() -> (r: &'static str)
    ensures
        r@ == "PulseNet"@,
{
    "PulseNet"
}

} // verus!
