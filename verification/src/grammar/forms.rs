//! The forms of statements: what each word of a statement is read as.
//!
//! The laws speak of scripts that are written down word by word, and of statements at any place of
//! such a script.
pub mod bindings;
pub mod checks;
pub mod dispatches;
pub mod geometry;
pub mod objects;
pub mod statements;
pub mod tables;
pub mod tokens;
pub mod values;
pub mod words;
