//! Reading a script.
//!
//! For each rule of the grammar there is a function that reads what the rule finds at a position
//! of the text.
pub mod bindings;
pub mod checks;
pub mod dispatches;
pub mod geometry;
pub mod objects;
pub mod statements;
pub mod tables;
pub mod tokens;
pub mod values;
