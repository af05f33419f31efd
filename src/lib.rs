//! A linter for GDScript source files: naming, redundancy and usage rules.
//!
//! The source is parsed into a syntax tree, every enabled rule walks that tree
//! (or the raw text), inline suppression comments are applied, and the
//! remaining diagnostics come back ordered by position.

pub mod issue;
pub mod text;
pub mod tree;
pub mod naming;
pub mod config;
pub mod rules;
pub mod suppression;
pub mod registry;
pub mod linter;
pub mod laws;
pub mod parse;
