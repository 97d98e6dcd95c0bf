//! A small stack machine that reshapes a non-empty sequence of string values
//! through configured operations, with Ruby-style signed indexing.

pub mod indexing;
pub mod stack;
pub mod laws;
