//! Runtimes: the plan of their processes, and how such a process is started and stopped.
pub mod args;
pub mod laws;
pub mod lifecycle_laws;
pub mod plan;
pub mod process;
pub mod readiness;
pub mod termination;
