//! EpisodicEngine (hippocampus): the home of episodic sequences.
use vstd::prelude::*;

verus! {

/// The engine that manages episodes: start, step, end, recall.
pub struct EpisodicEngine;

impl Default for EpisodicEngine {
    fn default() -> (r: Self)
        ensures
            r == EpisodicEngine,
    {
        EpisodicEngine::new()
    }
}

impl EpisodicEngine {
    /// An episodic engine.
    pub fn new() -> (r: Self)
        ensures
            r == EpisodicEngine,
    {
        EpisodicEngine
    }
}

} // verus!
