//! Verified core of `cargo rbext`, a Cargo subcommand that sets up and
//! builds Ruby extension libraries written in Rust.

pub mod commands;
pub mod manifest;
pub mod options;
pub mod paths;
pub mod template;
pub mod text;
pub mod toml_lines;
