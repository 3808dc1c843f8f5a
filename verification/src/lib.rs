//! Selection of an installed Java runtime by version and distribution.
//!
//! The crate turns a free-form version specifier into a structured query,
//! normalizes the heterogeneous version strings reported for installed
//! runtimes into comparable major-version numbers, matches the query against
//! an ordered registry of runtimes, and finds a project's declared version by
//! cascading upward through directory levels.  All of it is pure: callers
//! supply registry entries, file contents and environment values as plain
//! data and perform the surrounding input and output themselves.

pub mod chars;
pub mod digits;
pub mod errors;
pub mod jvm;
pub mod locator;
pub mod policy;
pub mod resolver;
pub mod specifier;
pub mod text;
