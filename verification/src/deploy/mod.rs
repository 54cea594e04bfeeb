//! The deploy workflow: mapping built images, patching the operator's live
//! workload, invalidating what it derived, and waiting for convergence.

pub mod manifest;
pub mod mapping;
pub mod operator;
pub mod orchestrator;
pub mod wait;
