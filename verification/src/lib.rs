//! Build-time conformance-test generation.
//!
//! Given a transformation function under test, a pair of normalization
//! functions (serialize, deserialize) and a fixture file holding named
//! input/expected-output pairs, this library parses the fixture text into
//! records, parses the caller's configuration, aggregates every diagnostic it
//! can find, and renders one self-contained test per record.  All parsing and
//! rendering logic is verified; the host build step around it only does I/O.

pub mod codegen;
pub mod config;
pub mod diag;
pub mod driver;
pub mod fixture;
pub mod outcome;
pub mod syntax;
pub mod text;
