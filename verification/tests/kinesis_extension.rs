use otlp_forwarder::kinesis_extension::{
    fits_kinesis_record, is_otlp_record, missing_stream_error, should_forward, MAX_RECORD_SIZE_BYTES,
};

#[test]
fn only_otlp_stdout_lines_are_forwarded() {
    assert!(is_otlp_record("{\"__otel_otlp_stdout\":\"0.1.0\",\"payload\":\"x\"}"));
    assert!(!is_otlp_record("{\"__otel_otlp_stdout\""));
    assert!(!is_otlp_record(" {\"__otel_otlp_stdout\":1}"));
    assert!(!is_otlp_record("START RequestId: 1"));
    assert!(!is_otlp_record(""));
}

#[test]
fn records_must_fit_in_kinesis() {
    let prefix = "{\"__otel_otlp_stdout\":";
    let exact = format!("{}{}", prefix, "x".repeat(MAX_RECORD_SIZE_BYTES - prefix.len()));
    assert!(fits_kinesis_record(&exact));
    assert!(should_forward(&exact));
    let too_long = format!("{}x", exact);
    assert!(!fits_kinesis_record(&too_long));
    assert!(!should_forward(&too_long));
    let multibyte = "é".repeat(MAX_RECORD_SIZE_BYTES / 2 + 1);
    assert!(!fits_kinesis_record(&multibyte));
}

#[test]
fn missing_stream_name_message() {
    assert_eq!(
        missing_stream_error("environment variable not found"),
        "Failed to get stream name: environment variable not found. Ensure that the OTLP_STDOUT_KINESIS_STREAM_NAME environment variable is set."
    );
}
