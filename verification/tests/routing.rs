use oxapy::routing::{Route, RouteError, Router};

fn get_route(path: &str, handler: u64) -> Route {
    Route::new(path.to_string(), Some("GET".to_string())).with_handler(handler)
}

#[test]
fn param_template_matches_and_captures() {
    let mut router = Router::new(None);
    router.route(&get_route("/users/{id}", 7)).unwrap();

    let found = router.find("GET", "/users/42").expect("should match");
    assert_eq!(found.route.handler, 7);
    assert_eq!(found.params.len(), 1);
    assert_eq!(found.params[0].0, "id");
    assert_eq!(found.params[0].1, "42");
}

#[test]
fn param_template_does_not_match_shorter_path() {
    let mut router = Router::new(None);
    router.route(&get_route("/users/{id}", 7)).unwrap();
    assert!(router.find("GET", "/users").is_none());
}

#[test]
fn method_must_match() {
    let mut router = Router::new(None);
    router.route(&get_route("/users/{id}", 7)).unwrap();
    assert!(router.find("POST", "/users/42").is_none());
}

#[test]
fn literal_beats_parameter() {
    let mut router = Router::new(None);
    router.route(&get_route("/users/{id}", 1)).unwrap();
    router.route(&get_route("/users/new", 2)).unwrap();

    let found = router.find("GET", "/users/new").expect("should match");
    assert_eq!(found.route.handler, 2);
    assert!(found.params.is_empty());

    let found = router.find("GET", "/users/42").expect("should match");
    assert_eq!(found.route.handler, 1);
}

#[test]
fn parameter_beats_wildcard() {
    let mut router = Router::new(None);
    router.route(&get_route("/a/{*rest}", 1)).unwrap();
    router.route(&get_route("/a/{x}/c", 2)).unwrap();

    let found = router.find("GET", "/a/b/c").expect("should match");
    assert_eq!(found.route.handler, 2);
    assert_eq!(found.params[0].1, "b");
}

#[test]
fn wildcard_captures_remainder() {
    let mut router = Router::new(None);
    router.route(&get_route("/static/{*path}", 3)).unwrap();

    let found = router.find("GET", "/static/css/site.css").expect("should match");
    assert_eq!(found.params[0].0, "path");
    assert_eq!(found.params[0].1, "css/site.css");

    assert!(router.find("GET", "/static").is_none());
    assert!(router.find("GET", "/static/").is_none());
}

#[test]
fn query_component_is_ignored() {
    let mut router = Router::new(None);
    router.route(&get_route("/users/{id}", 7)).unwrap();
    let found = router.find("GET", "/users/42?verbose=1&x=y").expect("should match");
    assert_eq!(found.params[0].1, "42");
}

#[test]
fn base_path_join_collapses_slashes() {
    let mut router = Router::new(Some("/api/".to_string()));
    router.route(&get_route("/items", 9)).unwrap();
    assert_eq!(router.entries[0].full_path, "/api/items");

    let found = router.find("GET", "/api/items").expect("should match");
    assert_eq!(found.route.handler, 9);

    // joining collapsed the slashes on the registration side only: the
    // request path is taken exactly as it stands
    assert!(router.find("GET", "/api//items").is_none());
}

#[test]
fn request_paths_are_taken_exactly() {
    let mut router = Router::new(None);
    router.route(&get_route("/users/{id}", 7)).unwrap();
    assert!(router.find("GET", "/users/42/").is_none());
    assert!(router.find("GET", "//users/42").is_none());
    assert!(router.find("GET", "users/42").is_none());
}

#[test]
fn a_root_route_matches_exactly_the_root() {
    let mut router = Router::new(None);
    router.route(&get_route("/", 4)).unwrap();
    let found = router.find("GET", "/").expect("should match");
    assert_eq!(found.route.handler, 4);
    assert!(found.params.is_empty());
    assert!(router.find("GET", "//").is_none());
    assert!(router.find("GET", "/x").is_none());
}

#[test]
fn base_path_join_handles_missing_slashes() {
    let mut router = Router::new(Some("api".to_string()));
    router.route(&get_route("items/{id}", 9)).unwrap();
    assert_eq!(router.entries[0].full_path, "/api/items/{id}");
    assert!(router.find("GET", "/api/items/3").is_some());
}

#[test]
fn same_shape_is_a_conflict() {
    let mut router = Router::new(None);
    router.route(&get_route("/users/{id}", 1)).unwrap();
    let err = router.route(&get_route("/users/{name}", 2)).unwrap_err();
    assert_eq!(err, RouteError::Conflict);
    assert_eq!(router.entries.len(), 1);
}

#[test]
fn duplicate_literal_is_a_conflict() {
    let mut router = Router::new(None);
    router.route(&get_route("/health", 1)).unwrap();
    assert_eq!(router.route(&get_route("/health", 2)).unwrap_err(), RouteError::Conflict);
}

#[test]
fn same_path_different_method_is_no_conflict() {
    let mut router = Router::new(None);
    router.route(&get_route("/health", 1)).unwrap();
    let post = Route::new("/health".to_string(), Some("POST".to_string())).with_handler(2);
    assert!(router.route(&post).is_ok());
}

#[test]
fn wildcard_must_stand_last() {
    let mut router = Router::new(None);
    let err = router.route(&get_route("/a/{*rest}/b", 1)).unwrap_err();
    assert_eq!(err, RouteError::BadTemplate);
    assert!(router.entries.is_empty());
}

#[test]
fn routes_registers_in_order_and_stops_at_a_conflict() {
    let mut router = Router::new(None);
    let ok = router.routes(&vec![get_route("/a", 1), get_route("/b", 2)]);
    assert!(ok.is_ok());
    assert_eq!(router.entries.len(), 2);
    assert_eq!(router.entries[0].route.handler, 1);
    assert_eq!(router.entries[1].route.handler, 2);

    let err = router.routes(&vec![get_route("/c", 3), get_route("/a", 4)]);
    assert_eq!(err.unwrap_err(), RouteError::Conflict);
    assert_eq!(router.entries.len(), 3);
}

#[test]
fn a_sub_router_can_be_nested_as_a_service() {
    let mut sub = Router::new(Some("/v1".to_string()));
    sub.route(&get_route("/ping", 1)).unwrap();
    let mut router = Router::new(Some("/api".to_string()));
    router.service(sub);
    assert_eq!(router.services.len(), 1);
    assert_eq!(router.services[0].entries[0].full_path, "/v1/ping");
}

#[test]
fn default_method_is_get() {
    let route = Route::new("/x".to_string(), None);
    assert_eq!(route.method, "GET");
}

#[test]
fn static_file_route_takes_the_remainder() {
    let route = oxapy::routing::static_file("static", 5);
    assert_eq!(route.path, "/static/{*path}");
    assert_eq!(route.method, "GET");

    let mut router = Router::new(None);
    router.route(&route).unwrap();
    let found = router.find("GET", "/static/img/logo.png").expect("should match");
    assert_eq!(found.params[0].1, "img/logo.png");
}
