//! The Lambda extension that forwards OTLP stdout records to Kinesis: which
//! function log lines it sends, and which fit in a Kinesis record.
use vstd::prelude::*;
use vstd::string::*;

verus! {

/// The largest record Kinesis accepts, in bytes.
pub const MAX_RECORD_SIZE_BYTES: usize = 1048576;

/// The start of a log line written by the OTLP stdout exporter.
pub open spec fn otlp_record_prefix() -> Seq<char> {
    "{\"__otel_otlp_stdout\":"@
}

/// Whether a function log line is OTLP stdout output (`str::starts_with` of
/// `{"__otel_otlp_stdout":`).
pub fn is_otlp_record(record: &str) -> (b: bool)
    ensures
        b == (record@.len() >= otlp_record_prefix().len() && record@.take(otlp_record_prefix().len() as int)
            == otlp_record_prefix()),
{
    let prefix = "{\"__otel_otlp_stdout\":";
    proof {
        reveal_strlit("{\"__otel_otlp_stdout\":");
    }
    assert(prefix@ == otlp_record_prefix());
    let n = record.unicode_len();
    let m = prefix.unicode_len();
    if n < m {
        return false;
    }
    let mut i: usize = 0;
    while i < m
        invariant
            prefix@ == otlp_record_prefix(),
            m == prefix@.len(),
            m <= n,
            n == record@.len(),
            i <= m,
            record@.take(i as int) == prefix@.take(i as int),
        decreases m - i,
    {
        if record.get_char(i) != prefix.get_char(i) {
            assert(record@.take(m as int)[i as int] != prefix@[i as int]);
            return false;
        }
        assert(record@.take(i + 1) =~= record@.take(i as int).push(record@[i as int]));
        assert(prefix@.take(i + 1) =~= prefix@.take(i as int).push(prefix@[i as int]));
        i = i + 1;
    }
    assert(prefix@.take(m as int) =~= prefix@);
    true
}

/// Whether a record fits in one Kinesis record: its UTF-8 length is at most
/// `MAX_RECORD_SIZE_BYTES`. Longer records are skipped.
pub fn fits_kinesis_record(record: &str) -> (b: bool)
    ensures
        b == (record.len() <= MAX_RECORD_SIZE_BYTES),
{
    record.len() <= MAX_RECORD_SIZE_BYTES
}

/// Whether the extension sends a function log line to Kinesis: it is OTLP
/// stdout output and fits in a record.
pub fn should_forward(record: &str) -> (b: bool)
    ensures
        b == (record@.len() >= otlp_record_prefix().len() && record@.take(otlp_record_prefix().len() as int)
            == otlp_record_prefix() && record.len() <= MAX_RECORD_SIZE_BYTES),
{
    is_otlp_record(record) && fits_kinesis_record(record)
}

/// The error when the stream name is not configured, with the environment
/// lookup's message.
pub fn missing_stream_error(cause: &str) -> (r: String)
    ensures
        r@ == "Failed to get stream name: "@ + cause@
            + ". Ensure that the OTLP_STDOUT_KINESIS_STREAM_NAME environment variable is set."@,
{
    let mut r = String::from_str("Failed to get stream name: ");
    r.append(cause);
    r.append(". Ensure that the OTLP_STDOUT_KINESIS_STREAM_NAME environment variable is set.");
    r
}

} // verus!
