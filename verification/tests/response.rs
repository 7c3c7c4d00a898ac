use oxapy::cors::Cors;
use oxapy::catcher::apply_catcher_outcome;
use oxapy::into_response::{
    convert_to_response, error_response, HandlerError, HandlerErrorKind, HandlerValue,
};
use oxapy::response::{Body, Redirect, Response};
use oxapy::status::Status;

fn body_text(resp: &Response) -> &str {
    match &resp.body {
        Body::Text(s) => s.as_str(),
        _ => panic!("expected a text body"),
    }
}

fn header<'a>(resp: &'a Response, name: &str) -> Option<&'a str> {
    resp.headers
        .entries
        .iter()
        .find(|(k, _)| k == name)
        .map(|(_, v)| v.as_str())
}

#[test]
fn plain_string_converts_to_ok_text() {
    let resp = convert_to_response(HandlerValue::Text("hello".to_string())).unwrap();
    assert_eq!(resp.status.code, 200);
    assert_eq!(header(&resp, "Content-Type"), Some("text/plain"));
    assert_eq!(body_text(&resp), "hello");
}

#[test]
fn body_with_status_keeps_the_status() {
    let resp = convert_to_response(HandlerValue::TextStatus(
        "gone".to_string(),
        Status::not_found(),
    ))
    .unwrap();
    assert_eq!(resp.status.code, 404);
    assert_eq!(body_text(&resp), "gone");
    assert_eq!(header(&resp, "Content-Type"), Some("text/plain"));
}

#[test]
fn bare_status_converts_to_empty_response() {
    let resp = convert_to_response(HandlerValue::Stat(Status::no_content())).unwrap();
    assert_eq!(resp.status.code, 204);
    assert_eq!(body_text(&resp), "");
}

#[test]
fn json_fallback_gets_json_content_type() {
    let resp =
        convert_to_response(HandlerValue::Json("{\"ok\":true}".to_string())).unwrap();
    assert_eq!(resp.status.code, 200);
    assert_eq!(header(&resp, "Content-Type"), Some("application/json"));
    assert_eq!(body_text(&resp), "{\"ok\":true}");
}

#[test]
fn an_actual_response_passes_through() {
    let original = Response::from_text("as is".to_string(), Status::from_code(418));
    let resp = convert_to_response(HandlerValue::Resp(original)).unwrap();
    assert_eq!(resp.status.code, 418);
    assert_eq!(body_text(&resp), "as is");
}

#[test]
fn unsupported_shape_is_an_error() {
    assert!(convert_to_response(HandlerValue::Unsupported).is_err());
}

#[test]
fn validation_failure_yields_400() {
    let resp = error_response(HandlerError {
        kind: HandlerErrorKind::Validation,
        message: "bad payload".to_string(),
    });
    assert_eq!(resp.status.code, 400);
    assert_eq!(body_text(&resp), "bad payload");
}

#[test]
fn other_failure_yields_500() {
    let resp = error_response(HandlerError {
        kind: HandlerErrorKind::Other,
        message: "boom".to_string(),
    });
    assert_eq!(resp.status.code, 500);
    assert_eq!(body_text(&resp), "boom");
}

#[test]
fn insert_header_replaces_append_keeps() {
    let mut resp = Response::from_text("x".to_string(), Status::ok());
    resp.insert_header("X-Tag", "one".to_string());
    resp.append_header("X-Tag", "two".to_string());
    let tags: Vec<&str> = resp
        .headers
        .entries
        .iter()
        .filter(|(k, _)| k == "X-Tag")
        .map(|(_, v)| v.as_str())
        .collect();
    assert_eq!(tags, vec!["one", "two"]);

    resp.insert_header("X-Tag", "final".to_string());
    let tags: Vec<&str> = resp
        .headers
        .entries
        .iter()
        .filter(|(k, _)| k == "X-Tag")
        .map(|(_, v)| v.as_str())
        .collect();
    assert_eq!(tags, vec!["final"]);
}

#[test]
fn chunked_responses_are_marked_uncacheable() {
    let resp = Response::new(
        Body::Chunks(vec![vec![1u8, 2u8], vec![3u8]]),
        Status::ok(),
        "application/octet-stream",
    );
    assert_eq!(header(&resp, "Cache-Control"), Some("no-cache"));

    let plain = Response::new(Body::Text("x".to_string()), Status::ok(), "text/plain");
    assert!(plain.headers.entries.iter().all(|(k, _)| k != "Cache-Control"));
}

#[test]
fn redirect_carries_location() {
    let resp = Redirect::new("/home".to_string()).response();
    assert_eq!(resp.status.code, 301);
    assert_eq!(header(&resp, "Location"), Some("/home"));
    assert_eq!(header(&resp, "Content-Type"), Some("text/html"));
}

#[test]
fn cors_headers_are_written() {
    let cors = Cors::new();
    let resp = cors.apply_to_response(Response::from_status(Status::ok()));
    assert_eq!(header(&resp, "Access-Control-Allow-Origin"), Some("*"));
    assert_eq!(
        header(&resp, "Access-Control-Allow-Methods"),
        Some("GET, POST, PUT, DELETE, PATCH, OPTIONS")
    );
    assert_eq!(
        header(&resp, "Access-Control-Allow-Headers"),
        Some("Content-Type, Authorization, X-Requested-With, Accept")
    );
    assert_eq!(header(&resp, "Access-Control-Allow-Credentials"), Some("true"));
    assert_eq!(header(&resp, "Access-Control-Max-Age"), Some("86400"));
}

#[test]
fn catcher_success_replaces_the_response() {
    let original = Response::from_status(Status::not_found());
    let replaced = apply_catcher_outcome(
        original,
        Some(Ok(HandlerValue::TextStatus("custom page".to_string(), Status::ok()))),
    );
    assert_eq!(replaced.status.code, 200);
    assert_eq!(body_text(&replaced), "custom page");
}

#[test]
fn catcher_failure_keeps_the_original() {
    let original = Response::from_status(Status::not_found());
    let kept = apply_catcher_outcome(
        original,
        Some(Err(HandlerError {
            kind: HandlerErrorKind::Other,
            message: "catcher blew up".to_string(),
        })),
    );
    assert_eq!(kept.status.code, 404);
}

#[test]
fn unconvertible_catcher_result_keeps_the_original() {
    let original = Response::from_status(Status::not_found());
    let kept = apply_catcher_outcome(original, Some(Ok(HandlerValue::Unsupported)));
    assert_eq!(kept.status.code, 404);
}
