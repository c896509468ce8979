//! ExecutiveEngine (prefrontal cortex): ranks recall candidates.
use vstd::prelude::*;

verus! {

/// The engine that ranks recall candidates by combined score.
pub struct ExecutiveEngine;

impl ExecutiveEngine {
    /// An executive engine.
    pub fn new() -> (r: Self)
        ensures
            r == ExecutiveEngine,
    {
        ExecutiveEngine
    }
}

} // verus!
