//! Client accounts.

pub mod basic;
pub mod wrap;
