//! Beat times by the wall clock.

use vstd::prelude::*;

verus! {

/// Works out when the next beat falls.
#[derive(Clone, Copy, Debug, PartialEq, Eq, Structural)]
pub struct Scheduler {}

impl Scheduler {
    /// A scheduler before its first beat.
    pub fn new() -> (s: Scheduler)
        ensures
            s == (Scheduler {  }),
    {
        Scheduler {  }
    }
}

} // verus!
