//! Battle-state model, turn simulator and evaluation helpers of the
//! DeepBlue battle engine, with their contracts.
pub mod state;
pub mod data;
pub mod simulator;
pub mod heuristic;
pub mod search;
pub mod engine;
