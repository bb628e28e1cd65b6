//! The `Gemfile.lock` format.

pub mod datatypes;
pub mod grammar;
pub mod parser;
pub mod render;
