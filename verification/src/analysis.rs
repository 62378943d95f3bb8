//! Analysis of recorded sound.

use vstd::prelude::*;

verus! {

/// Judges how well recorded beats keep time.
#[derive(Clone, Copy, Debug, PartialEq, Eq, Structural)]
pub struct Analyzer {}

/// What an analysis found.
#[derive(Clone, Copy, Debug, PartialEq, Eq, Structural)]
pub struct AnalysisResult {}

impl Analyzer {
    /// An analyzer that has heard nothing yet.
    pub fn new() -> (a: Analyzer)
        ensures
            a == (Analyzer {  }),
    {
        Analyzer {  }
    }
}

} // verus!
