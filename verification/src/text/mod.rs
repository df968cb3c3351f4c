//! Text operations with exact contracts over `Seq<char>`.
pub mod compose;
pub mod bytes;
pub mod chars;
pub mod laws;
pub mod number;
pub mod order;
pub mod pieces;
pub mod search;
pub mod trim;
