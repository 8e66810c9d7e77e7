use httpbin_router::http::{
    bad_request, Body, Error, MediaType, Method, PeerAddr, PeerIp, Request, RequestHead, Response,
};
use httpbin_router::path::{split_path, PathSegment, Route};
use httpbin_router::router::{handle_panics, respond, Router};

type Handler = fn(&Request) -> Result<Response, Error>;

fn head(method: Method, path: &str) -> RequestHead {
    RequestHead {
        method: Some(method),
        path: path.to_string(),
        query: None,
    }
}

fn lit(s: &str) -> PathSegment {
    PathSegment::Literal(s.to_string())
}

fn cap(s: &str) -> PathSegment {
    PathSegment::Capture(s.to_string())
}

fn text(status: u16, s: &str) -> Response {
    Response {
        status,
        content_type: Some(MediaType::PlainText),
        content_length: None,
        body: Body::Full(s.as_bytes().to_vec()),
    }
}

fn echo_id(req: &Request) -> Result<Response, Error> {
    match req.param("id") {
        Some(id) => Ok(text(200, &id)),
        None => Err(bad_request()),
    }
}

fn first(_: &Request) -> Result<Response, Error> {
    Ok(text(200, "first"))
}

fn second(_: &Request) -> Result<Response, Error> {
    Ok(text(200, "second"))
}

fn always_400(_: &Request) -> Result<Response, Error> {
    Err(Error::new(400, Some("missing field: name".to_string())))
}

fn healthy(_: &Request) -> Result<Response, Error> {
    Ok(text(200, "ok"))
}

fn body_of(r: Response) -> Vec<u8> {
    r.body.collect()
}

// The dispatcher's whole run on one request, with `crashes` standing for a
// handler that fails without returning.
fn serve(router: &Router<Handler>, req: RequestHead, crashes: bool) -> Response {
    let service = router.service(None);
    assert!(service.poll_ready());
    match service.call(req) {
        Err(resp) => resp,
        Ok((endpoint, nreq)) => {
            let outcome = if crashes {
                None
            } else {
                Some((endpoint.handler)(&nreq))
            };
            respond(handle_panics(outcome))
        }
    }
}

#[test]
fn test_panic() {
    let router = Router::builder()
        .install(healthy as Handler, Route::new(None, vec![]))
        .build();
    let res = serve(&router, head(Method::Get, "/"), true);
    assert_eq!(res.status, 500);
}

#[test]
fn first_registered_match_wins() {
    let router = Router::builder()
        .install(first as Handler, Route::new(Some(Method::Get), vec![lit("items"), cap("id")]))
        .install(second as Handler, Route::new(Some(Method::Get), vec![lit("items"), lit("7")]))
        .build();
    let res = serve(&router, head(Method::Get, "/items/7"), false);
    assert_eq!(res.status, 200);
    assert_eq!(body_of(res), b"first".to_vec());
}

#[test]
fn segment_count_mismatch_is_not_found() {
    let router = Router::builder()
        .install(echo_id as Handler, Route::new(Some(Method::Get), vec![lit("items"), cap("id")]))
        .build();
    for path in ["/items", "/items/7/extra", "/"] {
        let res = serve(&router, head(Method::Get, path), false);
        assert_eq!(res.status, 404);
        assert!(body_of(res).is_empty());
    }
}

#[test]
fn method_mismatch_is_not_found() {
    let router = Router::builder()
        .install(echo_id as Handler, Route::new(Some(Method::Get), vec![lit("items"), cap("id")]))
        .build();
    let res = serve(&router, head(Method::Post, "/items/7"), false);
    assert_eq!(res.status, 404);
    let unknown = RequestHead {
        method: None,
        path: "/items/7".to_string(),
        query: None,
    };
    assert_eq!(serve(&router, unknown, false).status, 404);
}

#[test]
fn any_method_route_matches_every_method() {
    let router = Router::builder()
        .install(healthy as Handler, Route::new(None, vec![lit("ping")]))
        .build();
    assert_eq!(serve(&router, head(Method::Delete, "/ping"), false).status, 200);
    assert_eq!(serve(&router, head(Method::Get, "/ping"), false).status, 200);
}

#[test]
fn literal_segments_are_case_sensitive() {
    let router = Router::builder()
        .install(healthy as Handler, Route::new(None, vec![lit("ping")]))
        .build();
    assert_eq!(serve(&router, head(Method::Get, "/Ping"), false).status, 404);
}

#[test]
fn capture_records_only_named_segments() {
    let route = Route::new(Some(Method::Get), vec![lit("items"), cap("id")]);
    let m = route.matches(&head(Method::Get, "/items/42")).unwrap();
    assert_eq!(m.len(), 1);
    assert_eq!(m.get("id"), Some("42".to_string()));
    assert_eq!(m.get("items"), None);
    assert_eq!(m.entries, vec![("id".to_string(), "42".to_string())]);
}

#[test]
fn capture_refuses_empty_segment() {
    let route = Route::new(Some(Method::Get), vec![lit("items"), cap("id")]);
    assert!(route.matches(&head(Method::Get, "/items/")).is_none());
}

#[test]
fn crash_is_contained_to_one_request() {
    let router = Router::builder()
        .install(healthy as Handler, Route::new(Some(Method::Get), vec![lit("boom")]))
        .install(healthy as Handler, Route::new(Some(Method::Get), vec![lit("health")]))
        .build();
    let res = serve(&router, head(Method::Get, "/boom"), true);
    assert_eq!(res.status, 500);
    assert!(body_of(res).is_empty());
    let res = serve(&router, head(Method::Get, "/health"), false);
    assert_eq!(res.status, 200);
    assert_eq!(body_of(res), b"ok".to_vec());
}

#[test]
fn handler_error_becomes_its_status_and_message() {
    let router = Router::builder()
        .install(always_400 as Handler, Route::new(Some(Method::Post), vec![lit("form")]))
        .build();
    let res = serve(&router, head(Method::Post, "/form"), false);
    assert_eq!(res.status, 400);
    assert_eq!(res.content_type, Some(MediaType::PlainText));
    assert_eq!(body_of(res), b"missing field: name".to_vec());
}

#[test]
fn echo_captured_id() {
    let router = Router::builder()
        .install(echo_id as Handler, Route::new(Some(Method::Get), vec![lit("items"), cap("id")]))
        .build();
    let res = serve(&router, head(Method::Get, "/items/7"), false);
    assert_eq!(res.status, 200);
    assert_eq!(body_of(res), b"7".to_vec());
}

#[test]
fn empty_router_answers_not_found() {
    let router: Router<Handler> = Router::builder().build();
    for (m, p) in [(Method::Get, "/"), (Method::Post, "/items/7"), (Method::Put, "/a/b/c")] {
        assert_eq!(serve(&router, head(m, p), false).status, 404);
    }
}

#[test]
fn routes_lists_registration_order() {
    let b = Router::builder()
        .install(first as Handler, Route::new(Some(Method::Get), vec![lit("a")]))
        .install(second as Handler, Route::new(None, vec![cap("x"), lit("b")]));
    let routes = b.routes();
    assert_eq!(routes.len(), 2);
    assert_eq!(routes[0].method, Some(Method::Get));
    assert_eq!(routes[1].method, None);
    assert_eq!(routes[1].segments.len(), 2);
}

#[test]
fn call_passes_peer_and_captures() {
    let router = Router::builder()
        .install(echo_id as Handler, Route::new(Some(Method::Get), vec![lit("items"), cap("id")]))
        .build();
    let peer = PeerAddr {
        ip: PeerIp::V4(0x7f00_0001),
        port: 8080,
    };
    let service = router.service(Some(peer));
    let (_, req) = service.call(head(Method::Get, "/items/9")).ok().unwrap();
    assert_eq!(req.client_addr, Some(peer));
    assert_eq!(req.param("id"), Some("9".to_string()));
    assert_eq!(req.head.path, "/items/9".to_string());
}

#[test]
fn split_path_cases() {
    assert!(split_path("/").is_empty());
    assert!(split_path("").is_empty());
    assert_eq!(split_path("/items/7"), vec!["items".to_string(), "7".to_string()]);
    assert_eq!(split_path("/a//b/"), vec!["a".to_string(), String::new(), "b".to_string(), String::new()]);
    assert_eq!(split_path("x/y"), vec!["x".to_string(), "y".to_string()]);
}

#[test]
fn error_without_message_has_empty_body() {
    let res = handle_panics(Some(Err(Error::new(503, None))));
    let res = respond(res);
    assert_eq!(res.status, 503);
    assert_eq!(res.content_type, None);
    assert!(body_of(res).is_empty());
}
