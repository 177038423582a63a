//! The transaction processors and the rules they share.

pub mod basic_processor;
pub mod equivalence;
pub mod lifecycle;
pub mod rules;
pub mod wrap_processor;
