//! Recording of what is played along.

use vstd::prelude::*;

verus! {

/// Holds a recording in the making.
#[derive(Clone, Copy, Debug, PartialEq, Eq, Structural)]
pub struct Recorder {}

impl Recorder {
    /// A recorder that holds nothing yet.
    pub fn new() -> (r: Recorder)
        ensures
            r == (Recorder {  }),
    {
        Recorder {  }
    }
}

} // verus!
