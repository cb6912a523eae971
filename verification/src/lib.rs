//! Audit of environment-variable use across a codebase: definitions parsed
//! from `KEY=VALUE` files, usages extracted from source text by per-language
//! idiom matchers, and a cross-reference analysis that reports variables that
//! are missing, unused, or inconsistently named.

pub mod analysis;
pub mod cli;
pub mod config;
pub mod env_parser;
pub mod languages;
pub mod pattern;
pub mod rules;
pub mod text;
pub mod types;

pub use cli::{CheckArgs, Cli, Commands, OutputFormat, ScanArgs, SeverityFilter};
pub use config::Config;
pub use types::{Issue, ScanReport, Severity};
