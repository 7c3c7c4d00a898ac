use oxapy::headers::Headers;
use oxapy::middleware::{ChainNode, Middleware, MiddlewareChain};
use oxapy::request::Request;
use oxapy::response::Response;
use oxapy::session::{
    extract_session_id_from_cookie, set_session_cookie, Session, SessionStore,
};
use oxapy::status::Status;

#[test]
fn query_parameters_are_decoded() {
    let request = Request::new(
        "GET".to_string(),
        "/api?name=John%20Doe&age=30".to_string(),
        Headers::new(),
    );
    let query = request.query().expect("query component expected");
    assert_eq!(query.len(), 2);
    assert_eq!(query[0], ("name".to_string(), "John Doe".to_string()));
    assert_eq!(query[1], ("age".to_string(), "30".to_string()));
}

#[test]
fn plus_decodes_to_a_space() {
    let request =
        Request::new("GET".to_string(), "/s?q=two+words".to_string(), Headers::new());
    let query = request.query().unwrap();
    assert_eq!(query[0].1, "two words");
}

#[test]
fn no_query_component_means_none() {
    let request = Request::new("GET".to_string(), "/api".to_string(), Headers::new());
    assert!(request.query().is_none());
}

#[test]
fn multipart_content_types_are_recognised() {
    assert!(oxapy::request::is_multipart_content_type(
        "multipart/form-data; boundary=----x"
    ));
    assert!(!oxapy::request::is_multipart_content_type(
        "application/x-www-form-urlencoded"
    ));
}

#[test]
fn request_headers_are_looked_up_by_name() {
    let mut headers = Headers::new();
    headers.append("user-agent", "tester".to_string());
    let request = Request::new("GET".to_string(), "/".to_string(), headers);
    assert_eq!(request.header("user-agent"), Some("tester".to_string()));
    assert_eq!(request.header("cookie"), None);
}

#[test]
fn extension_attributes_shadow_by_name() {
    let mut request = Request::new("GET".to_string(), "/".to_string(), Headers::new());
    assert_eq!(request.get_ext("user"), None);
    request.set_ext("user".to_string(), 7).unwrap();
    request.set_ext("user".to_string(), 8).unwrap();
    assert_eq!(request.get_ext("user"), Some(8));
}

#[test]
fn read_only_attribute_names_are_refused() {
    let mut request = Request::new("GET".to_string(), "/".to_string(), Headers::new());
    for name in ["method", "uri", "headers", "body", "template"] {
        assert!(request.set_ext(name.to_string(), 1).is_err());
        assert_eq!(request.get_ext(name), None);
    }
    assert_eq!(request.method, "GET");
    assert_eq!(request.uri, "/");
    assert!(request.set_ext("data".to_string(), 2).is_ok());
}

#[test]
fn session_id_is_read_from_the_cookie_header() {
    let header = "theme=dark; session_id = abc123 ;other=1".to_string();
    assert_eq!(
        extract_session_id_from_cookie(Some(&header), "session_id"),
        Some("abc123".to_string())
    );
    assert_eq!(extract_session_id_from_cookie(Some(&header), "missing"), None);
    assert_eq!(extract_session_id_from_cookie(None, "session_id"), None);
}

#[test]
fn first_matching_cookie_wins() {
    let header = "sid=first; sid=second".to_string();
    assert_eq!(extract_session_id_from_cookie(Some(&header), "sid"), Some("first".to_string()));
}

#[test]
fn a_piece_without_equals_is_skipped() {
    let header = "garbage; sid=ok".to_string();
    assert_eq!(extract_session_id_from_cookie(Some(&header), "sid"), Some("ok".to_string()));
}

#[test]
fn session_cookie_is_inserted_then_appended() {
    let store = SessionStore::new("sid".to_string());
    let mut resp = Response::from_text("x".to_string(), Status::ok());
    set_session_cookie(&mut resp, &Session::new("one".to_string()), &store);
    set_session_cookie(&mut resp, &Session::new("two".to_string()), &store);
    let cookies: Vec<&str> = resp
        .headers
        .entries
        .iter()
        .filter(|(k, _)| k == "Set-Cookie")
        .map(|(_, v)| v.as_str())
        .collect();
    assert_eq!(cookies, vec!["sid=one; Path=/; HttpOnly", "sid=two; Path=/; HttpOnly"]);
}

#[test]
fn middleware_chain_wraps_right_to_left() {
    let chain = MiddlewareChain::new(vec![Middleware::new(1), Middleware::new(2)]);
    match chain.build(9) {
        ChainNode::Wrap(outer, inner) => {
            assert_eq!(outer, 1);
            match *inner {
                ChainNode::Wrap(mid, innermost) => {
                    assert_eq!(mid, 2);
                    assert!(matches!(*innermost, ChainNode::Handler(9)));
                },
                _ => panic!("expected the second middleware inside the first"),
            }
        },
        _ => panic!("expected a wrapped chain"),
    }
}

#[test]
fn empty_middleware_list_is_the_bare_handler() {
    let chain = MiddlewareChain::new(Vec::new());
    assert!(matches!(chain.build(4), ChainNode::Handler(4)));
}
