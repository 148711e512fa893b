use axum_demo::handler::Handler;
use axum_demo::http::Method;
use axum_demo::path::split_path;
use axum_demo::pattern::{is_more_specific, parse_pattern, Segment};
use axum_demo::router::{RouteError, Router, RoutingError};

fn seg_text(s: &Segment) -> String {
    match s {
        Segment::Literal(l) => String::from_utf8(l.clone()).unwrap(),
        Segment::Param(n) => format!(":{}", String::from_utf8(n.clone()).unwrap()),
    }
}

#[test]
fn split_path_keeps_empty_segments() {
    let segs = split_path(b"//users/42/");
    assert_eq!(
        segs,
        vec![b"".to_vec(), b"".to_vec(), b"users".to_vec(), b"42".to_vec(), b"".to_vec()]
    );
    assert_eq!(split_path(b"/"), vec![b"".to_vec(), b"".to_vec()]);
    assert_eq!(split_path(b""), vec![b"".to_vec()]);
    assert_eq!(split_path(b"/hey"), vec![b"".to_vec(), b"hey".to_vec()]);
}

#[test]
fn parse_pattern_reads_params() {
    let p = parse_pattern(b"/users/:id/posts");
    let texts: Vec<String> = p.iter().map(seg_text).collect();
    assert_eq!(texts, vec!["", "users", ":id", "posts"]);
}

#[test]
fn literal_is_more_specific_than_param() {
    let a = parse_pattern(b"/users/me");
    let b = parse_pattern(b"/users/:id");
    assert!(is_more_specific(&a, &b));
    assert!(!is_more_specific(&b, &a));
    assert!(!is_more_specific(&a, &a));
}

#[test]
fn most_specific_route_wins() {
    let mut r = Router::new();
    assert!(r.register(Method::Get, b"/users/:id", Handler::DoSomething, Vec::new()).is_ok());
    assert!(r.register(Method::Get, b"/users/me", Handler::Hey, Vec::new()).is_ok());
    assert_eq!(r.resolve(Method::Get, b"/users/me"), Ok(1));
    assert_eq!(r.resolve(Method::Get, b"/users/7"), Ok(0));
}

#[test]
fn same_shape_registration_is_refused() {
    let mut r = Router::new();
    assert!(r.register(Method::Get, b"/a/:x", Handler::DoSomething, Vec::new()).is_ok());
    assert_eq!(
        r.register(Method::Get, b"/a/:y", Handler::Hey, Vec::new()),
        Err(RouteError::Ambiguous)
    );
    assert!(r.register(Method::Post, b"/a/:y", Handler::Hey, Vec::new()).is_ok());
    assert_eq!(r.routes.len(), 2);
}

#[test]
fn unregistered_path_is_not_found() {
    let mut r = Router::new();
    r.register(Method::Get, b"/hey", Handler::Hey, Vec::new()).unwrap();
    assert_eq!(r.resolve(Method::Get, b"/nothing"), Err(RoutingError::NotFound));
    assert_eq!(r.resolve(Method::Get, b"/hey/more"), Err(RoutingError::NotFound));
    assert_eq!(r.resolve(Method::Get, b"/hey/"), Err(RoutingError::NotFound));
    assert_eq!(r.resolve(Method::Get, b"//hey"), Err(RoutingError::NotFound));
    assert_eq!(r.resolve(Method::Post, b"/hey/"), Err(RoutingError::NotFound));
    assert_eq!(r.resolve(Method::Get, b""), Err(RoutingError::NotFound));
}

#[test]
fn wrong_method_is_not_allowed() {
    let mut r = Router::new();
    r.register(Method::Get, b"/hey", Handler::Hey, Vec::new()).unwrap();
    assert_eq!(r.resolve(Method::Post, b"/hey"), Err(RoutingError::MethodNotAllowed));
    assert_eq!(r.resolve(Method::Get, b"/hey"), Ok(0));
}

#[test]
fn every_registered_route_resolves_to_itself() {
    let mut r = Router::new();
    let pats: [&[u8]; 4] = [b"/", b"/a", b"/a/:b", b"/a/b/c"];
    for p in pats.iter() {
        r.register(Method::Get, p, Handler::DoSomething, Vec::new()).unwrap();
    }
    assert_eq!(r.resolve(Method::Get, b"/"), Ok(0));
    assert_eq!(r.resolve(Method::Get, b"/a"), Ok(1));
    assert_eq!(r.resolve(Method::Get, b"/a/zz"), Ok(2));
    assert_eq!(r.resolve(Method::Get, b"/a/b/c"), Ok(3));
    assert_eq!(r.resolve(Method::Get, b"/a/"), Err(RoutingError::NotFound));
    assert_eq!(r.resolve(Method::Get, b"/a//"), Err(RoutingError::NotFound));
}

#[test]
fn params_are_extracted() {
    let mut r = Router::new();
    r.register(Method::Get, b"/users/:id/posts/:post", Handler::DoSomething, Vec::new()).unwrap();
    r.register(Method::Get, b"/users/me/posts/:post", Handler::Hey, Vec::new()).unwrap();
    let (i, ps) = r.resolve_with_params(Method::Get, b"/users/42/posts/7").unwrap();
    assert_eq!(i, 0);
    assert_eq!(
        ps,
        vec![(b"id".to_vec(), b"42".to_vec()), (b"post".to_vec(), b"7".to_vec())]
    );
    let (i, ps) = r.resolve_with_params(Method::Get, b"/users/me/posts/x").unwrap();
    assert_eq!(i, 1);
    assert_eq!(ps, vec![(b"post".to_vec(), b"x".to_vec())]);
    assert!(matches!(
        r.resolve_with_params(Method::Get, b"/users/42"),
        Err(RoutingError::NotFound)
    ));
}

#[test]
fn head_is_served_by_get_routes() {
    let mut r = Router::new();
    r.register(Method::Get, b"/hey", Handler::Hey, Vec::new()).unwrap();
    assert_eq!(r.resolve(Method::Head, b"/hey"), Ok(0));
    assert_eq!(
        r.register(Method::Head, b"/hey", Handler::DoSomething, Vec::new()),
        Err(RouteError::Ambiguous)
    );
    assert!(r.register(Method::Post, b"/:x", Handler::DoSomething, Vec::new()).is_ok());
    assert_eq!(r.resolve(Method::Head, b"/other"), Err(RoutingError::MethodNotAllowed));
}
