//! The benchmark test function: its parameters, the names of the spans it
//! creates, and its answer.
use vstd::prelude::*;
use crate::json::{entry_views, get_u64, json_view, lemma_entry_views, u64_field, JsonValue, JsonView};
use crate::text::{decimal_text, u64_to_string};

verus! {

/// Levels of the span tree when the event does not say.
pub const DEFAULT_DEPTH: u64 = 2;

/// Spans per level when the event does not say.
pub const DEFAULT_ITERATIONS: u64 = 4;

/// The `depth` and `iterations` of an event (non-negative integer fields),
/// with the defaults for what is missing or of another kind.
pub fn benchmark_params(event: &JsonValue) -> (r: (u64, u64))
    ensures
        r.0 == match u64_field(*event, "depth"@) {
            Some(d) => d,
            None => DEFAULT_DEPTH,
        },
        r.1 == match u64_field(*event, "iterations"@) {
            Some(i) => i,
            None => DEFAULT_ITERATIONS,
        },
{
    let depth = match get_u64(event, "depth") {
        Some(d) => d,
        None => DEFAULT_DEPTH,
    };
    let iterations = match get_u64(event, "iterations") {
        Some(i) => i,
        None => DEFAULT_ITERATIONS,
    };
    (depth, iterations)
}

/// The name of span `iteration` at level `depth`.
pub fn span_name(depth: u64, iteration: u64) -> (r: String)
    ensures
        r@ == "operation_depth_"@ + decimal_text(depth as nat) + "_iter_"@ + decimal_text(iteration as nat),
{
    let mut r = String::from_str("operation_depth_");
    r.append(u64_to_string(depth).as_str());
    r.append("_iter_");
    r.append(u64_to_string(iteration).as_str());
    r
}

/// The answer of the function (keys in the order `serde_json`'s map keeps
/// them).
pub open spec fn benchmark_response_view(depth: u64, iterations: u64) -> JsonView {
    JsonView::Object(
        seq![
            ("depth"@, JsonView::PosInt(depth)),
            ("iterations"@, JsonView::PosInt(iterations)),
            ("message"@, JsonView::Str("Benchmark complete"@)),
        ],
    )
}

pub fn benchmark_response(depth: u64, iterations: u64) -> (r: JsonValue)
    ensures
        json_view(r) == benchmark_response_view(depth, iterations),
{
    let mut entries: Vec<(String, JsonValue)> = Vec::new();
    entries.push((String::from_str("depth"), JsonValue::PosInt(depth)));
    entries.push((String::from_str("iterations"), JsonValue::PosInt(iterations)));
    entries.push((String::from_str("message"), JsonValue::Str(String::from_str("Benchmark complete"))));
    let ghost ev = entries@;
    proof {
        lemma_entry_views(ev, 3);
        assert(entry_views(ev, 3) =~= match benchmark_response_view(depth, iterations) {
            JsonView::Object(x) => x,
            _ => Seq::empty(),
        });
    }
    JsonValue::Object(entries)
}

} // verus!
