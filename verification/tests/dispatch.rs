use oxapy::catcher::{catcher, find_catcher, Catcher};
use oxapy::cors::Cors;
use oxapy::dispatch::{ConnectionPermits, DispatchQueue, ProcessRequest, SubmitOutcome};
use oxapy::headers::Headers;
use oxapy::into_response::HandlerValue;
use oxapy::processor::{bind_params, pick_catcher, prepare_response, BoundValue};
use oxapy::request::Request;
use oxapy::response::Body;
use oxapy::routing::{Route, Router};
use oxapy::server::{DispatchDecision, HttpServer};
use oxapy::session::{Session, SessionStore};
use oxapy::status::Status;

fn message(tag: u64) -> ProcessRequest {
    ProcessRequest {
        request: Request::new("GET".to_string(), "/".to_string(), Headers::new()),
        router_index: 0,
        route: Route::new("/".to_string(), None).with_handler(tag),
        params: Vec::new(),
        reply: tag,
        cors: None,
        catchers: Vec::new(),
    }
}

#[test]
fn backpressure_full_queue_refuses_without_loss() {
    let mut q = DispatchQueue::new(2);
    assert_eq!(q.try_submit(message(1)), SubmitOutcome::Enqueued);
    assert_eq!(q.try_submit(message(2)), SubmitOutcome::Enqueued);
    assert_eq!(q.try_submit(message(3)), SubmitOutcome::Full);
    assert_eq!(q.len(), 2);
    // nothing was dropped: both queued messages still come out
    assert_eq!(q.dequeue().unwrap().reply, 1);
    assert_eq!(q.dequeue().unwrap().reply, 2);
}

#[test]
fn connection_permits_bound_admission() {
    let mut permits = ConnectionPermits::new(2);
    assert!(permits.try_acquire());
    assert!(permits.try_acquire());
    assert!(!permits.try_acquire());
    permits.release();
    assert!(permits.try_acquire());
}

#[test]
fn fifo_first_submitted_is_first_dequeued() {
    let mut q = DispatchQueue::new(8);
    q.try_submit(message(10));
    q.try_submit(message(20));
    q.try_submit(message(30));
    assert_eq!(q.dequeue().unwrap().reply, 10);
    assert_eq!(q.dequeue().unwrap().reply, 20);
    assert_eq!(q.dequeue().unwrap().reply, 30);
    assert!(q.dequeue().is_none());
}

#[test]
fn shutdown_stops_dequeues_but_in_flight_work_completes() {
    let mut q = DispatchQueue::new(8);
    q.try_submit(message(1));
    q.try_submit(message(2));

    // one message is already in flight when the signal fires
    let in_flight = q.dequeue().unwrap();
    q.signal_shutdown();

    // no new message is dequeued; the queued one is abandoned
    assert!(q.dequeue().is_none());
    assert_eq!(q.len(), 1);
    assert_eq!(q.try_submit(message(3)), SubmitOutcome::Closed);

    // the in-flight request still gets its reply computed and delivered
    let reply = prepare_response(
        Ok(HandlerValue::Text("done".to_string())),
        in_flight.request.session.as_ref(),
        None,
        None,
    );
    assert_eq!(reply.status.code, 200);
}

#[test]
fn bind_params_parses_typed_parameters() {
    let params = vec![
        ("id:int".to_string(), "42".to_string()),
        ("name:str".to_string(), "ada".to_string()),
        ("raw".to_string(), "x".to_string()),
    ];
    let bound = bind_params(&params).unwrap();
    assert_eq!(bound.len(), 3);
    assert_eq!(bound[0].0, "id");
    assert!(matches!(bound[0].1, BoundValue::Int(42)));
    assert_eq!(bound[1].0, "name");
    assert!(matches!(&bound[1].1, BoundValue::Str(s) if s == "ada"));
    assert_eq!(bound[2].0, "raw");
}

#[test]
fn bind_params_rejects_a_bad_integer() {
    let params = vec![("id:int".to_string(), "forty-two".to_string())];
    assert!(bind_params(&params).is_err());
}

#[test]
fn session_cookie_then_cors_are_applied_in_order() {
    let session = Session::new("abc123".to_string());
    let store = SessionStore::new("session_id".to_string());
    let resp = prepare_response(
        Ok(HandlerValue::Text("hi".to_string())),
        Some(&session),
        Some(&store),
        Some(&Cors::new()),
    );
    assert_eq!(resp.status.code, 200);
    let cookie = resp
        .headers
        .entries
        .iter()
        .find(|(k, _)| k == "Set-Cookie")
        .map(|(_, v)| v.as_str());
    assert_eq!(cookie, Some("session_id=abc123; Path=/; HttpOnly"));
    assert!(resp.headers.entries.iter().any(|(k, _)| k == "Access-Control-Allow-Origin"));
}

#[test]
fn later_catcher_for_a_status_wins() {
    let catchers = vec![
        catcher(Status::not_found(), 1),
        Catcher::new(Status::internal_server_error(), 2),
        catcher(Status::not_found(), 3),
    ];
    assert_eq!(find_catcher(&catchers, Status::not_found()), Some(3));
    assert_eq!(find_catcher(&catchers, Status::internal_server_error()), Some(2));
    assert_eq!(find_catcher(&catchers, Status::ok()), None);

    let resp = prepare_response(Ok(HandlerValue::Stat(Status::not_found())), None, None, None);
    assert_eq!(pick_catcher(&catchers, &resp), Some(3));
}

#[test]
fn preflight_never_reaches_route_matching() {
    let mut server = HttpServer::new(("127.0.0.1".to_string(), 8000));
    server.cors(Cors::new());

    // even a router that would match OPTIONS on this path is bypassed
    let mut router = Router::new(None);
    let options_route =
        Route::new("/data".to_string(), Some("OPTIONS".to_string())).with_handler(9);
    router.route(&options_route).unwrap();
    server.attach(router);

    match server.route_decision("OPTIONS", "/data") {
        DispatchDecision::Preflight(resp) => {
            assert_eq!(resp.status.code, 204);
            let origin = resp
                .headers
                .entries
                .iter()
                .find(|(k, _)| k == "Access-Control-Allow-Origin")
                .map(|(_, v)| v.as_str());
            assert_eq!(origin, Some("*"));
            match &resp.body {
                Body::Text(t) => assert_eq!(t, ""),
                _ => panic!("expected a text body"),
            }
        },
        _ => panic!("expected a preflight answer"),
    }
}

#[test]
fn without_cors_options_requests_are_routed() {
    let mut server = HttpServer::new(("127.0.0.1".to_string(), 8000));
    let mut router = Router::new(None);
    let options_route =
        Route::new("/data".to_string(), Some("OPTIONS".to_string())).with_handler(9);
    router.route(&options_route).unwrap();
    server.attach(router);

    match server.route_decision("OPTIONS", "/data") {
        DispatchDecision::Submit(0, found) => assert_eq!(found.route.handler, 9),
        _ => panic!("expected a submission"),
    }
}

#[test]
fn routers_are_tried_in_attachment_order() {
    let mut server = HttpServer::new(("127.0.0.1".to_string(), 8000));

    let mut first = Router::new(None);
    first.route(&Route::new("/a".to_string(), None).with_handler(1)).unwrap();
    let mut second = Router::new(None);
    second.route(&Route::new("/a".to_string(), None).with_handler(2)).unwrap();
    second.route(&Route::new("/b".to_string(), None).with_handler(3)).unwrap();
    server.attach(first);
    server.attach(second);

    match server.route_decision("GET", "/a") {
        DispatchDecision::Submit(0, found) => assert_eq!(found.route.handler, 1),
        _ => panic!("expected the first router to win"),
    }
    match server.route_decision("GET", "/b") {
        DispatchDecision::Submit(1, found) => assert_eq!(found.route.handler, 3),
        _ => panic!("expected the second router"),
    }
}

#[test]
fn unmatched_request_is_not_found_with_cors_headers() {
    let mut server = HttpServer::new(("127.0.0.1".to_string(), 8000));
    server.cors(Cors::new());
    match server.route_decision("GET", "/nowhere") {
        DispatchDecision::NotFound(resp) => {
            assert_eq!(resp.status.code, 404);
            assert!(resp
                .headers
                .entries
                .iter()
                .any(|(k, _)| k == "Access-Control-Allow-Origin"));
        },
        _ => panic!("expected not found"),
    }
}
