use otlp_forwarder::json::JsonValue;
use otlp_forwarder::testbed::{benchmark_params, benchmark_response, span_name, DEFAULT_DEPTH, DEFAULT_ITERATIONS};

fn obj(entries: Vec<(&str, JsonValue)>) -> JsonValue {
    JsonValue::Object(entries.into_iter().map(|(k, v)| (k.to_string(), v)).collect())
}

#[test]
fn parameters_with_defaults() {
    assert_eq!(benchmark_params(&obj(vec![])), (DEFAULT_DEPTH, DEFAULT_ITERATIONS));
    assert_eq!(benchmark_params(&obj(vec![("depth", JsonValue::PosInt(5))])), (5, 4));
    assert_eq!(
        benchmark_params(&obj(vec![("depth", JsonValue::Str("5".to_string())), ("iterations", JsonValue::PosInt(7))])),
        (2, 7)
    );
    assert_eq!(benchmark_params(&JsonValue::Null), (2, 4));
}

#[test]
fn span_names_and_answer() {
    assert_eq!(span_name(2, 3), "operation_depth_2_iter_3");
    match benchmark_response(3, 4) {
        JsonValue::Object(e) => {
            assert_eq!(e[0].0, "depth");
            assert!(matches!(e[0].1, JsonValue::PosInt(3)));
            assert!(matches!(e[1].1, JsonValue::PosInt(4)));
            assert!(matches!(&e[2].1, JsonValue::Str(m) if m == "Benchmark complete"));
        }
        _ => panic!("expected an object"),
    }
}
