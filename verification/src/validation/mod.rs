//! Validation runs: the context shared by the rules, the rules themselves,
//! the walk that hands every node of a document to each rule, and what
//! holds of every walk.

pub mod context;
pub mod rules;
pub mod visitor;
pub mod theorems;
