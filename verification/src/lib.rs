//! Verified core of a search-and-replace code editing tool.

pub mod text;
pub mod range;
pub mod search;
pub mod accumulator;
pub mod channel;
pub mod laws;
pub mod undo;
pub mod prompts;
pub mod editing;
