//! Logic of the `startled` Lambda benchmark CLI: benchmark settings, the names
//! used for result directories, the functions of a stack to benchmark, and the
//! paths of the HTML reports.
pub mod names;


pub mod types;
pub mod report;
pub mod invoke;
