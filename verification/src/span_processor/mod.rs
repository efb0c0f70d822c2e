//! Conversion of raw JSON span records, as written to CloudWatch Logs, into
//! OTLP export requests.
pub mod export;
