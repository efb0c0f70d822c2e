//! Logic of the demo services: span-event severity levels, the small Lambda
//! HTTP router, the front end's helpers, and the trace-propagating HTTP
//! middleware.
pub mod spanevent;
pub mod router;
pub mod propagation;
pub mod frontend;
pub mod backend;
