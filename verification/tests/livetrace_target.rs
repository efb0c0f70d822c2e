use otlp_forwarder::livetrace::target::{needs_traces_path, otlp_target_url, TargetUrlError};

#[test]
fn an_endpoint_without_a_path_gets_the_traces_path() {
    assert_eq!(otlp_target_url("http://localhost:4318").ok().unwrap(), "http://localhost:4318/v1/traces");
    assert_eq!(otlp_target_url("http://localhost:4318/").ok().unwrap(), "http://localhost:4318/v1/traces");
}

#[test]
fn an_endpoint_with_a_path_is_kept() {
    assert_eq!(
        otlp_target_url("https://collector.example.com/custom/v1/traces").ok().unwrap(),
        "https://collector.example.com/custom/v1/traces"
    );
}

#[test]
fn an_endpoint_that_is_not_a_url_is_refused() {
    match otlp_target_url("not a url") {
        Err(e @ TargetUrlError::InvalidEndpoint { .. }) => {
            assert_eq!(e.message(), "Invalid OTLP endpoint URL: not a url")
        }
        _ => panic!("expected an invalid endpoint"),
    }
}

#[test]
fn the_traces_path_is_added_for_root_or_empty_paths_only() {
    assert!(needs_traces_path("/"));
    assert!(needs_traces_path(""));
    assert!(!needs_traces_path("/v1/traces"));
    let join = TargetUrlError::JoinFailed { endpoint: "e".to_string() };
    assert_eq!(join.message(), "Failed to join /v1/traces to base endpoint URL: e");
}
