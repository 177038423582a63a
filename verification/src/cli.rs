//! What a command-line front end needs from the library: its error type and
//! the replay of a whole input.

pub mod error;
pub mod process;
