//! The decision core of a local inference gateway: how runtimes are planned, started,
//! routed to and stopped, how memory is budgeted, how benchmark submissions are put
//! together, and how a WSL2 runtime is installed.
pub mod benchmark;
pub mod failure;
pub mod json;
pub mod json_laws;
pub mod manager;
pub mod outside;
pub mod paths;
pub mod resources;
pub mod runtime;
pub mod text;
pub mod tui;
pub mod wsl;

