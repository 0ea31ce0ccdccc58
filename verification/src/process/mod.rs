//! Processes and their scheduling.
pub mod fairness;
pub mod laws;
pub mod process;
pub mod scheduler;
pub mod stack;
pub mod state;
