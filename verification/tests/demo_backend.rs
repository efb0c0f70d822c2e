use otlp_forwarder::demo::backend::{list_response, plan_request, read_response, written_response, BackendAction};
use otlp_forwarder::json::JsonValue;
use sha2::{Digest, Sha256};

fn field<'a>(v: &'a JsonValue, key: &str) -> &'a JsonValue {
    match v {
        JsonValue::Object(entries) => &entries.iter().find(|(k, _)| k == key).unwrap().1,
        _ => panic!("not an object"),
    }
}

fn status_and_body(v: &JsonValue) -> (u64, String) {
    let status = match field(v, "statusCode") {
        JsonValue::PosInt(s) => *s,
        _ => panic!("no status"),
    };
    let body = match field(v, "body") {
        JsonValue::Str(b) => b.clone(),
        _ => panic!("no body"),
    };
    match field(field(v, "headers"), "Content-Type") {
        JsonValue::Str(c) => assert_eq!(c, "application/json"),
        _ => panic!("no content type"),
    }
    (status, body)
}

#[test]
fn post_without_body_is_a_bad_request() {
    match plan_request("POST", &None, None) {
        BackendAction::Respond(r) => {
            assert_eq!(status_and_body(&r), (400, "{\"error\":\"Missing request body\"}".to_string()));
        }
        _ => panic!("expected a response"),
    }
}

#[test]
fn post_with_invalid_json_is_a_bad_request() {
    match plan_request("POST", &Some("not json".to_string()), None) {
        BackendAction::Respond(r) => {
            let (status, body) = status_and_body(&r);
            assert_eq!(status, 400);
            assert!(body.starts_with("{\"details\":\"expected ident"));
            assert!(body.ends_with(",\"error\":\"Invalid JSON in request body\"}"));
        }
        _ => panic!("expected a response"),
    }
}

#[test]
fn post_is_stored_under_the_hash_of_its_json() {
    match plan_request("POST", &Some("{\"b\": 1, \"a\": \"x\"}".to_string()), None) {
        BackendAction::Write { id, body } => {
            let expected = format!("{:x}", Sha256::digest(b"{\"a\":\"x\",\"b\":1}"));
            assert_eq!(id, expected);
            assert_eq!(id.len(), 64);
            match body {
                JsonValue::Object(entries) => {
                    assert_eq!(entries.len(), 2);
                    assert_eq!(entries[0].0, "a");
                    assert_eq!(entries[1].0, "b");
                }
                _ => panic!("expected an object"),
            }
        }
        _ => panic!("expected a write"),
    }
}

#[test]
fn get_reads_one_or_lists_all() {
    let id = "abc".to_string();
    assert!(matches!(plan_request("GET", &None, Some(&id)), BackendAction::Read { id } if id == "abc"));
    assert!(matches!(plan_request("GET", &None, None), BackendAction::List));
    assert!(matches!(plan_request("DELETE", &None, None), BackendAction::Unsupported));
    assert!(matches!(plan_request("get", &None, None), BackendAction::Unsupported));
}

#[test]
fn responses_after_storage() {
    let r = written_response(JsonValue::Str("x".to_string()), "2024-01-01T00:00:00+00:00".to_string());
    assert_eq!(
        status_and_body(&r),
        (
            200,
            "{\"message\":\"Item successfully written to DynamoDB\",\"received\":\"x\",\"timestamp\":\"2024-01-01T00:00:00+00:00\"}"
                .to_string()
        )
    );
    assert_eq!(status_and_body(&read_response(None)), (404, "{\"message\":\"Item not found\"}".to_string()));
    assert_eq!(
        status_and_body(&read_response(Some(JsonValue::Bool(true)))),
        (200, "true".to_string())
    );
    assert_eq!(
        status_and_body(&list_response(vec![JsonValue::PosInt(1), JsonValue::Str("a".to_string())])),
        (200, "[1,\"a\"]".to_string())
    );
}
