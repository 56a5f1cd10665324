//! What holds of every result that a function gives: laws over the calls
//! themselves, by what goes in and what comes out.

pub mod chip;
pub mod files;
pub mod frames;
pub mod lines;
pub mod messages;
pub mod runs;
