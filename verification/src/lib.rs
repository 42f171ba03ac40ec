//! Scripts for GPU tests: parsing, running and checking them.
pub mod check;
pub mod content;
pub mod duration;
pub mod files;
pub mod flags;
pub mod gpu;
pub mod grammar;
pub mod names;
pub mod null_backend;
pub mod parse_error;
pub mod parser;
pub mod report;
pub mod roles;
pub mod run;
pub mod script;
pub mod source;
pub mod state;
pub mod text;
pub mod value;
pub mod views;
