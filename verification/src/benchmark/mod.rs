//! Benchmarks of a loaded runtime: what has to be declared for one, how its commands
//! are written down, and the submission that comes of it.
pub mod archive;
pub mod commands;
pub mod environment;
pub mod flags;
pub mod ids;
pub mod input_laws;
pub mod laws;
pub mod listing;
pub mod measurement;
pub mod metadata;
pub mod optimizations;
pub mod run;
pub mod submission;
