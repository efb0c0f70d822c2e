# otlp_forwarder

Verified core of a set of tools around OpenTelemetry traces written to AWS
CloudWatch Logs by Lambda functions.

- `src/` is the library, verified with Verus:
  - `livetrace/`: the `livetrace` trace viewer and forwarder: duration strings,
    configuration precedence (defaults, `global` section, profile, arguments),
    colour themes, OTLP header parsing and target URLs, decoding and compacting
    of log payloads,
    trace buffering, log-group discovery and polling cursors, and the console
    model (timeline log, waterfall rows, layout).
  - `startled/`: the Lambda benchmark CLI: names, configuration, report
    paths, and the payload, proxy request and log tail of an invocation.
  - `benchmark/`: the batch benchmark runner's configuration, invocation
    payload, index-page metadata and chart types.
  - `span_processor/`: conversion of raw JSON span records into OTLP export
    requests (protobuf and OTLP JSON), from a record or a log message.
  - `demo/`: the demo services: span-event levels, the Lambda HTTP router, the
    back end's request decisions and the front end's helpers.
  - `kinesis_extension.rs`: which log lines the Kinesis-forwarding Lambda
    extension sends.
  - `testbed.rs`: the benchmark test function's parameters and answer.
  - `json.rs`, `pairs.rs`, `text.rs`: JSON values, string-keyed maps kept as
    pair lists, and text utilities shared by the above.
- `tests/` exercises the library with the outside crates linked.
- `app/` is the `livetrace` program: arguments, the configuration file, AWS
  calls, the event loop, console printing and HTTP forwarding.
