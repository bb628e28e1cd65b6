//! Core logic of `rv`, the Ruby version and gem manager: gem-name rules,
//! the `Gemfile.lock` grammar, the compact-index release format, blob
//! storage keys, GitHub authentication rules and Ruby release selection.

mod text;
mod bindings;
mod scan;
pub mod gem_name;
pub mod gem_types;
pub mod lockfile;
pub mod compact_index;
pub mod storage;
pub mod ruby_fetcher;
pub mod github;

pub use gem_name::{validate_gem_name, GemNameError};
