//! The user interface: a declarative schema, and the mutable state that is
//! kept beside it while the loop runs.

pub mod mutator;
pub mod schema;
pub mod tree;
