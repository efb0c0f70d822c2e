use otlp_forwarder::demo::frontend::{
    html_response, missing_quote_id_message, quote_error_page, quote_status_outcome, relative_time_text, sort_newest_first, QuoteError,
    TimeFrame,
};
use otlp_forwarder::json::JsonValue;

#[test]
fn time_frames_by_name() {
    let now = TimeFrame::from_param("now").unwrap();
    assert_eq!((now.start_hours, now.end_hours), (0, 6));
    assert_eq!(now.name, "now");
    let earlier = TimeFrame::from_param("earlier").unwrap();
    assert_eq!((earlier.start_hours, earlier.end_hours), (6, 24));
    let yesterday = TimeFrame::from_param("yesterday").unwrap();
    assert_eq!((yesterday.start_hours, yesterday.end_hours), (24, 48));
    assert!(TimeFrame::from_param("tomorrow").is_none());
    assert!(TimeFrame::from_param("Now").is_none());
}

#[test]
fn frame_bounds_include_start_exclude_end() {
    let earlier = TimeFrame::from_param("earlier").unwrap();
    assert!(!earlier.contains_age(6 * 3600 - 1));
    assert!(earlier.contains_age(6 * 3600));
    assert!(earlier.contains_age(24 * 3600 - 1));
    assert!(!earlier.contains_age(24 * 3600));
    let now = TimeFrame::from_param("now").unwrap();
    assert!(now.contains_age(0));
    assert!(!now.contains_age(-1));
}

#[test]
fn relative_time_units() {
    assert_eq!(relative_time_text(0), "0 minutes ago");
    assert_eq!(relative_time_text(90), "1 minutes ago");
    assert_eq!(relative_time_text(3599), "59 minutes ago");
    assert_eq!(relative_time_text(3600), "1 hours ago");
    assert_eq!(relative_time_text(7200), "2 hours ago");
    assert_eq!(relative_time_text(86399), "23 hours ago");
    assert_eq!(relative_time_text(86400), "1 days ago");
    assert_eq!(relative_time_text(-90), "-1 minutes ago");
}

#[test]
fn html_response_shape() {
    match html_response(200, "<p>hi</p>".to_string()) {
        JsonValue::Object(entries) => {
            let keys: Vec<&str> = entries.iter().map(|(k, _)| k.as_str()).collect();
            assert_eq!(keys, vec!["body", "headers", "statusCode"]);
            assert!(matches!(&entries[0].1, JsonValue::Str(s) if s == "<p>hi</p>"));
            assert!(matches!(entries[2].1, JsonValue::PosInt(200)));
            match &entries[1].1 {
                JsonValue::Object(h) => {
                    assert_eq!(h[0].0, "Cache-Control");
                    assert!(matches!(&h[0].1, JsonValue::Str(s) if s == "no-store, no-cache, must-revalidate, proxy-revalidate"));
                    assert_eq!(h[1].0, "Content-Type");
                    assert!(matches!(&h[1].1, JsonValue::Str(s) if s == "text/html"));
                }
                _ => panic!("expected headers"),
            }
        }
        _ => panic!("expected an object"),
    }
}

fn status_headers_body(v: &JsonValue) -> (u64, Vec<(String, String)>, String) {
    match v {
        JsonValue::Object(entries) => {
            let status = match &entries[2].1 {
                JsonValue::PosInt(s) => *s,
                _ => panic!("no status"),
            };
            let headers = match &entries[1].1 {
                JsonValue::Object(h) => h
                    .iter()
                    .map(|(k, v)| match v {
                        JsonValue::Str(s) => (k.clone(), s.clone()),
                        _ => panic!("header is not text"),
                    })
                    .collect(),
                _ => panic!("no headers"),
            };
            let body = match &entries[0].1 {
                JsonValue::Str(b) => b.clone(),
                _ => panic!("no body"),
            };
            (status, headers, body)
        }
        _ => panic!("not an object"),
    }
}

#[test]
fn root_redirects_to_now() {
    let (status, headers, body) = status_headers_body(&otlp_forwarder::demo::frontend::root_redirect_response());
    assert_eq!(status, 301);
    assert_eq!(headers[2], ("Location".to_string(), "/now".to_string()));
    assert_eq!(headers[0], ("Cache-Control".to_string(), "public, max-age=60".to_string()));
    assert!(body.contains("url=/now"));
}

#[test]
fn unknown_time_frame_is_not_found() {
    let (status, headers, body) = status_headers_body(&otlp_forwarder::demo::frontend::invalid_time_frame_response());
    assert_eq!(status, 404);
    assert_eq!(body, "Invalid time frame");
    assert_eq!(headers[1], ("Content-Type".to_string(), "text/plain".to_string()));
}

#[test]
fn quote_statuses_and_error_pages() {
    assert!(quote_status_outcome(200, "7", String::new()).is_ok());
    assert!(quote_status_outcome(204, "7", String::new()).is_ok());
    match quote_status_outcome(404, "7", String::new()) {
        Err(QuoteError::NotFound(m)) => assert_eq!(m, "Quote 7 not found"),
        _ => panic!("expected not found"),
    }
    match quote_status_outcome(503, "7", "down".to_string()) {
        Err(e) => {
            assert_eq!(e.message(), "Backend error 503: down");
            assert_eq!(quote_error_page(&e), (503, "Backend error: 503 - down".to_string()));
        }
        _ => panic!("expected a back-end error"),
    }
    assert_eq!(quote_error_page(&QuoteError::NotFound("Quote 7 not found".to_string())), (404, "Quote 7 not found".to_string()));
    assert_eq!(quote_error_page(&QuoteError::RequestError("boom".to_string())), (500, "Request error: boom".to_string()));
    assert_eq!(QuoteError::RequestError("boom".to_string()).message(), "Request error: boom");
    assert_eq!(missing_quote_id_message(), "Quote ID not provided");
}

#[test]
fn quotes_are_newest_first_with_undated_last() {
    let quotes = vec![(Some(1i128), "a"), (None, "b"), (Some(3), "c"), (Some(1), "d"), (None, "e")];
    let sorted: Vec<&str> = sort_newest_first(quotes).into_iter().map(|(_, q)| q).collect();
    assert_eq!(sorted, vec!["c", "a", "d", "b", "e"]);
    assert!(sort_newest_first(Vec::<(Option<i128>, u8)>::new()).is_empty());
}
