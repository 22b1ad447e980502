//! Support for running conformance test suites.
pub mod tree_construction;
