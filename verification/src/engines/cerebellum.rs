//! ProceduralEngine (cerebellum): the home of procedural memories.
use vstd::prelude::*;

verus! {

/// The engine that stores and retrieves procedural memories.
pub struct ProceduralEngine;

impl Default for ProceduralEngine {
    fn default() -> (r: Self)
        ensures
            r == ProceduralEngine,
    {
        ProceduralEngine::new()
    }
}

impl ProceduralEngine {
    /// A procedural engine.
    pub fn new() -> (r: Self)
        ensures
            r == ProceduralEngine,
    {
        ProceduralEngine
    }
}

} // verus!
