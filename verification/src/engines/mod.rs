pub mod thalamus;
pub mod temporal;
pub mod neocortex;
pub mod amygdala;
pub mod dream;
pub mod dream_steps;
pub mod association;
pub mod cerebellum;
pub mod hippocampus;
pub mod prefrontal;
pub mod dream_cycle;
