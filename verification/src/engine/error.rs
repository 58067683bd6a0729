use vstd::prelude::*;

verus! {

/// The simulation did not settle on a solution.
#[derive(Debug, Clone, Copy, PartialEq, Eq, Structural)]
pub struct NotConvergedError;

impl NotConvergedError {
    /// The message that goes with the error.
    pub fn message(&self) -> (s: &'static str)
        ensures
            s@ == "Couldn't converge simulation."@,
    {
        "Couldn't converge simulation."
    }
}

} // verus!
