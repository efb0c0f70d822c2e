//! Logic of the `livetrace` CLI: duration strings, configuration precedence,
//! colour themes, OTLP header handling, trace buffering and log-group discovery.
pub mod duration;
pub mod theme;
pub mod config;
pub mod forwarder;
pub mod processing;
pub mod session;
pub mod discovery;
pub mod otlp;
pub mod display;
pub mod target;
