//! The HTTP client middleware that injects the current trace context into
//! outgoing requests; it carries no state.
use vstd::prelude::*;

verus! {

/// Middleware that propagates the OpenTelemetry context of the current span to
/// outgoing HTTP requests.
#[derive(Clone, Debug, Default)]
pub struct OtelPropagationMiddleware;

impl OtelPropagationMiddleware {
    pub fn new() -> (m: Self)
        ensures
            m == OtelPropagationMiddleware,
    {
        OtelPropagationMiddleware
    }
}

} // verus!
