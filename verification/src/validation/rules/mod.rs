//! The rules a document can be held to, and the set they form.

pub mod variables_are_input_types;
pub mod rule_set;
