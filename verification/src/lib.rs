//! Rule-based validation of query documents against a schema's type system.
//!
//! A run walks a parsed document once, hands every node to each rule of the
//! rule set, and returns the errors the rules reported, in document order.

pub mod parser;
pub mod ast;
pub mod schema;
pub mod validation;
