//! Manifest-driven rendering of SQL queries and their tests: the data model
//! that binds queries to test templates, the placeholder strategy, the
//! reconciliation of rendered text with what is already on disk, and coverage
//! of queries by tests.
//!
//! Everything here works on plain values. Reading files, running a
//! formatter and touching the output tree are left to the caller, which is
//! told what to do next by [`pipeline::Run`]; templates are expanded by
//! [`engine::expand`]. What whole runs come to is stated in [`world`].

pub mod command;
pub mod coverage;
pub mod engine;
pub mod error;
pub mod metadata;
pub mod output;
pub mod pipeline;
pub mod placeholder;
pub mod query;
pub mod table;
pub mod test_template;
pub mod text;
pub mod value;
pub mod world;
