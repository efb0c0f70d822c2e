//! Logic of the batch benchmark runner: the batch configuration with its
//! defaults and per-test overrides, the test index, and the chart names of the
//! generated documentation.
pub mod types;
pub mod charts;
pub mod index_page;
pub mod invoke;
