//! Aggregates the metadata of challenge directories into a markdown report.
//!
//! The library holds the data model, the rule that pairs a challenge with its
//! test status, and the rendering of the report table. Walking directories,
//! reading and deserialising files, and writing the report are left to the
//! program that uses it.

pub mod model;
pub mod render;
pub mod laws;
