//! Verified core logic of the serverless OTLP forwarder tooling: the `livetrace`
//! trace viewer/forwarder, the `startled` Lambda benchmark CLI, the batch benchmark
//! runner and the demo helpers.
pub mod text;
pub mod pairs;
pub mod json;
pub mod livetrace;
pub mod startled;
pub mod benchmark;
pub mod demo;
pub mod span_processor;
pub mod kinesis_extension;
pub mod testbed;
