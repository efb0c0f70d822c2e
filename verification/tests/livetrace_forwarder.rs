use http::HeaderValue;
use otlp_forwarder::livetrace::forwarder::{
    parse_otlp_headers_from_vec, resolve_otlp_endpoint, resolve_otlp_headers,
};

#[test]
fn test_parse_otlp_headers_valid() {
    let headers_vec = vec![
        "Authorization=Bearer 123".to_string(),
        "X-Custom-Header=Value456".to_string(),
    ];
    let result = parse_otlp_headers_from_vec(&headers_vec).unwrap_or_else(|e| panic!("{}", e.message()));

    assert_eq!(result.len(), 2);
    assert_eq!(result.get("Authorization").unwrap(), &HeaderValue::from_str("Bearer 123").unwrap());
    assert_eq!(result.get("x-custom-header").unwrap(), &HeaderValue::from_str("Value456").unwrap());
}

#[test]
fn test_parse_otlp_headers_malformed() {
    let headers_vec = vec![
        "Authorization=Bearer 123".to_string(),
        "MalformedHeader".to_string(),
        "EmptyValue=".to_string(),
        "=NoKey".to_string(),
        "Key=Val1,Key=Val2".to_string(),
    ];
    let result = parse_otlp_headers_from_vec(&headers_vec);
    assert!(result.is_err());
}

#[test]
fn test_parse_otlp_headers_empty_input() {
    let headers_vec: Vec<String> = vec![];
    let result = parse_otlp_headers_from_vec(&headers_vec).unwrap_or_else(|e| panic!("{}", e.message()));
    assert!(result.is_empty());
}

#[test]
fn test_parse_otlp_headers_invalid_name() {
    let headers_vec = vec!["=NoKey".to_string()];
    let result = parse_otlp_headers_from_vec(&headers_vec);
    assert!(result.is_err());
    assert!(result
        .err()
        .unwrap()
        .message()
        .contains("Invalid OTLP header name"));
}

#[test]
fn a_repeated_name_takes_the_last_value_and_strings_without_equals_are_skipped() {
    let headers_vec = vec![
        "X-Key=one".to_string(),
        "Other=two".to_string(),
        "MalformedHeader".to_string(),
        "x-key=three".to_string(),
    ];
    let result = parse_otlp_headers_from_vec(&headers_vec).unwrap_or_else(|e| panic!("{}", e.message()));
    assert_eq!(result.len(), 2);
    assert_eq!(result.get("x-key").unwrap(), "three");
    assert_eq!(result.get_all("x-key").iter().count(), 1);
    assert_eq!(result.get("other").unwrap(), "two");
}

#[test]
fn the_first_refused_string_decides_the_error() {
    let headers_vec = vec![
        "Good=1".to_string(),
        "Key=bad\u{7f}value".to_string(),
        "=NoKey".to_string(),
    ];
    let message = parse_otlp_headers_from_vec(&headers_vec).err().unwrap().message();
    assert_eq!(message, "Invalid OTLP header value for Key: bad\u{7f}value");
}

#[test]
fn a_value_with_a_control_character_is_rejected() {
    let headers_vec = vec!["Key=bad\u{7f}value".to_string()];
    let result = parse_otlp_headers_from_vec(&headers_vec);
    let message = result.err().unwrap().message();
    assert_eq!(message, "Invalid OTLP header value for Key: bad\u{7f}value");
}

#[test]
fn a_value_may_hold_an_equals_sign() {
    let headers_vec = vec!["Key=a=b".to_string()];
    let result = parse_otlp_headers_from_vec(&headers_vec).unwrap_or_else(|e| panic!("{}", e.message()));
    assert_eq!(result.len(), 1);
    assert_eq!(result.get("key").unwrap(), "a=b");
}

#[test]
fn endpoint_comes_from_configuration_then_trace_variable_then_general_variable() {
    let c = Some("http://config:4318".to_string());
    let t = Some("http://traces:4318".to_string());
    let g = Some("http://general:4318".to_string());
    assert_eq!(resolve_otlp_endpoint(&c, &t, &g), c);
    assert_eq!(resolve_otlp_endpoint(&None, &t, &g), t);
    assert_eq!(resolve_otlp_endpoint(&None, &None, &g), g);
    assert_eq!(resolve_otlp_endpoint(&None, &None, &None), None);
}

#[test]
fn headers_come_from_configuration_else_from_a_trimmed_comma_list() {
    let configured = vec!["A=1".to_string()];
    let env = Some(" B=2 , ,C=3,".to_string());
    assert_eq!(resolve_otlp_headers(&configured, &env, &None), configured);
    assert_eq!(
        resolve_otlp_headers(&vec![], &env, &Some("D=4".to_string())),
        vec!["B=2".to_string(), "C=3".to_string()]
    );
    assert_eq!(
        resolve_otlp_headers(&vec![], &None, &Some("D=4".to_string())),
        vec!["D=4".to_string()]
    );
    assert!(resolve_otlp_headers(&vec![], &None, &None).is_empty());
}

#[test]
fn many_repetitions_of_one_name_fit_in_the_map() {
    let headers_vec: Vec<String> = (0..7000).map(|i| format!("X-Key={}", i)).collect();
    let map = otlp_forwarder::livetrace::forwarder::try_parse_otlp_headers(&headers_vec)
        .unwrap()
        .unwrap_or_else(|e| panic!("{}", e.message()));
    assert_eq!(map.len(), 1);
    assert_eq!(map.get("x-key").unwrap(), "6999");
}

#[test]
fn a_short_list_is_within_the_limit() {
    let short: Vec<String> = vec!["A=1".to_string()];
    assert!(otlp_forwarder::livetrace::forwarder::headers_within_limit(&short));
}
