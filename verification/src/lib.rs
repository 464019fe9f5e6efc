//! Configuration resolution: one schema of named settings, filled from
//! command-line values and from a configuration document (YAML, JSON or
//! TOML), with a fixed precedence and a merge policy for each field.
//!
//! - [`parse_attrs`] and [`schema`] read the declarations of a structure
//!   and build its schema.
//! - [`format`], [`discovery`] and [`loader`] find out which file is the
//!   configuration file, in which format it is written, and decode it.
//! - [`merge`] lays one document over another.
//! - [`resolve`] and [`positional`] give each field its final value.
//! - [`config_file`] holds the flags that steer the sources and loads the
//!   document that they ask for; [`engine`] runs all of it.
//!
//! The library neither reads files nor parses a command line: its callers
//! hand over what they read, as plain values.

pub mod config_file;
pub mod discovery;
pub mod engine;
pub mod format;
pub mod loader;
pub mod merge;
pub mod parse_attrs;
pub mod positional;
pub mod resolve;
pub mod schema;
pub mod text;
pub mod value;
