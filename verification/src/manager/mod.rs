//! The runtimes that a gateway has loaded: how one is chosen for a request, how one is
//! loaded and unloaded, and what is reported of them.
pub mod admission;
pub mod admission_laws;
pub mod laws;
pub mod load;
pub mod loaded;
pub mod loading;
pub mod loading_laws;
pub mod report_laws;
pub mod reports;
pub mod retry;
pub mod routing_laws;
pub mod state;
