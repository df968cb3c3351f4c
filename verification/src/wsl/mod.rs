//! Managed runtimes inside the Windows Subsystem for Linux.
pub mod archive;
pub mod catalog;
pub mod checks;
pub mod commands;
pub mod detection;
pub mod distros;
pub mod host_laws;
pub mod install;
pub mod laws;
pub mod manifest;
pub mod output;
pub mod packages;
pub mod preflight;
pub mod report_laws;
pub mod reports;
pub mod scripts;
pub mod system;
pub mod system_laws;
pub mod versions;
