use otlp_forwarder::demo::router::{not_found_response, Dispatch, Router, RouterBuilder};
use otlp_forwarder::json::JsonValue;

fn route_of(d: Dispatch) -> (usize, String, String, Vec<(String, String)>) {
    match d {
        Dispatch::Route { index, context } => (index, context.path, context.method, context.params),
        Dispatch::NotFound => panic!("expected a route"),
    }
}

#[test]
fn path_parameters_are_captured() {
    let mut router: Router<u32> = Router::new();
    router.register_route("get", "/users/{id}", 1);
    router.register_route("GET", "/files/{path+}", 2);
    assert_eq!(router.len(), 2);

    let (index, path, method, params) = route_of(router.handle_request(&Some("/users/42".to_string()), "get"));
    assert_eq!(index, 0);
    assert_eq!(*router.handler(index), 1);
    assert_eq!(path, "/users/42");
    assert_eq!(method, "GET");
    assert_eq!(params, vec![("id".to_string(), "42".to_string())]);

    let (index, _, _, params) = route_of(router.handle_request(&Some("/files/a/b/c".to_string()), "GET"));
    assert_eq!(index, 1);
    assert_eq!(params, vec![("path".to_string(), "a/b/c".to_string())]);
}

#[test]
fn unmatched_paths_are_not_found() {
    let mut router: Router<u32> = Router::new();
    router.register_route("GET", "/users/{id}", 1);
    assert!(matches!(router.handle_request(&Some("/users".to_string()), "GET"), Dispatch::NotFound));
    assert!(matches!(router.handle_request(&Some("/users/1/extra".to_string()), "GET"), Dispatch::NotFound));
    assert!(matches!(router.handle_request(&None, "GET"), Dispatch::NotFound));
}

#[test]
fn missing_path_is_the_root() {
    let mut router: Router<u32> = Router::new();
    router.register_route("GET", "/", 7);
    let (index, path, _, params) = route_of(router.handle_request(&None, "get"));
    assert_eq!(index, 0);
    assert_eq!(path, "/");
    assert!(params.is_empty());
}

#[test]
fn the_method_must_match_too() {
    let mut router: Router<u32> = Router::new();
    router.register_route("POST", "/users/{id}", 1);
    assert!(matches!(router.handle_request(&Some("/users/123".to_string()), "GET"), Dispatch::NotFound));
    let (index, _, method, params) = route_of(router.handle_request(&Some("/users/123".to_string()), "post"));
    assert_eq!(index, 0);
    assert_eq!(method, "POST");
    assert_eq!(params, vec![("id".to_string(), "123".to_string())]);
    router.register_route("GET", "/users/{id}", 2);
    let (index, _, _, _) = route_of(router.handle_request(&Some("/users/9".to_string()), "GET"));
    assert_eq!(*router.handler(index), 2);
    let (index, _, _, _) = route_of(router.handle_request(&Some("/users/9".to_string()), "POST"));
    assert_eq!(*router.handler(index), 1);
}

#[test]
fn registering_a_key_again_replaces_its_handler() {
    let mut router: Router<&str> = Router::new();
    router.register_route("GET", "/a", "first");
    router.register_route("get", "/a", "second");
    assert_eq!(router.len(), 1);
    assert_eq!(*router.handler(0), "second");
    router.register_route("POST", "/a", "third");
    assert_eq!(router.len(), 2);
}

#[test]
fn literal_segments_are_escaped() {
    let mut router: Router<u32> = Router::new();
    router.register_route("GET", "/v1.0/items", 1);
    assert!(matches!(router.handle_request(&Some("/v1.0/items".to_string()), "GET"), Dispatch::Route { .. }));
    assert!(matches!(router.handle_request(&Some("/v1x0/items".to_string()), "GET"), Dispatch::NotFound));
}

#[test]
fn invalid_parameter_names_are_refused() {
    let mut router: Router<u32> = Router::new();
    assert!(!router.try_register_route("GET", "/x/{a-b}", 1));
    assert_eq!(router.len(), 0);
    assert!(router.try_register_route("GET", "/x/{ab}", 1));
    assert_eq!(router.len(), 1);
}

#[test]
fn builder_registers_routes_in_order() {
    let router = RouterBuilder::new().route("GET", "/a", 1u32).route("POST", "/b/{x}", 2u32).build();
    assert_eq!(router.len(), 2);
    let (index, _, _, params) = route_of(router.handle_request(&Some("/b/7".to_string()), "POST"));
    assert_eq!(*router.handler(index), 2);
    assert_eq!(params, vec![("x".to_string(), "7".to_string())]);
    assert!(RouterBuilder::new().route("GET", "/{a-b}", 1u32).try_build().is_none());
    assert!(RouterBuilder::new().route("GET", "/{ab}", 1u32).try_build().is_some());
}

#[test]
fn not_found_answer() {
    match not_found_response() {
        JsonValue::Object(entries) => {
            assert_eq!(entries.len(), 3);
            assert_eq!(entries[0].0, "body");
            assert!(matches!(&entries[0].1, JsonValue::Str(s) if s == "Not Found"));
            assert_eq!(entries[2].0, "statusCode");
            assert!(matches!(entries[2].1, JsonValue::PosInt(404)));
            match &entries[1].1 {
                JsonValue::Object(h) => {
                    assert_eq!(h[0].0, "Content-Type");
                    assert!(matches!(&h[0].1, JsonValue::Str(s) if s == "text/plain"));
                }
                _ => panic!("expected headers"),
            }
        }
        _ => panic!("expected an object"),
    }
}
