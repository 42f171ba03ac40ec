//! The grammar of scripts.
//!
//! For each rule there is a spec function that says what the rule finds at a position and where
//! it ends, or why it does not apply there. Positions count characters. A rule that does not
//! apply may make room for another one, unless its failure is a cut.
pub mod bindings;
pub mod checks;
pub mod dispatches;
pub mod forms;
pub mod geometry;
pub mod laws;
pub mod objects;
pub mod round_trip;
pub mod statements;
pub mod tables;
pub mod tokens;
pub mod values;
pub mod written;
