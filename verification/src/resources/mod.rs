//! Memory: where it is, what a runtime needs of it, and who holds how much.
pub mod budget;
pub mod domains;
pub mod estimate;
pub mod laws;
pub mod ledger;
