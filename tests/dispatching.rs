use axum_demo::servers::{
    api_router, guarded_router, hello_router, init_router, payload_router, spa_router, state_router,
};
use axum_demo::dispatch::{query_response, Outcome};
use axum_demo::http::{Header, Method, Request, Response};
use axum_demo::middleware::check_hello_world;
use axum_demo::static_files::{percent_decode, static_response};

fn req(method: Method, path: &[u8], headers: Vec<Header>, body: &[u8]) -> Request {
    Request { method, path: path.to_vec(), headers, body: body.to_vec() }
}

trait CloneHeaders {
    fn clone_headers(&self) -> Vec<Header>;
}

impl CloneHeaders for Vec<Header> {
    fn clone_headers(&self) -> Vec<Header> {
        self.iter().map(|h| Header::new(&h.name, &h.value)).collect()
    }
}

fn get(path: &[u8]) -> Request {
    req(Method::Get, path, Vec::new(), b"")
}

fn responded(o: Outcome) -> (Response, Option<usize>) {
    match o {
        Outcome::Respond { response, invoked } => (response, invoked),
        other => panic!("no response: {:?}", other),
    }
}

#[test]
fn hello_world_text() {
    let (r, invoked) = responded(hello_router().dispatch(&get(b"/")));
    assert_eq!(r.status, 200);
    assert_eq!(r.body, b"Hello world!".to_vec());
    assert_eq!(invoked, Some(0));
    let (r, invoked) = responded(hello_router().dispatch(&get(b"/hey")));
    assert_eq!(r.body, br#"{"name":"cdd","id":1001}"#.to_vec());
    assert_eq!(invoked, Some(1));
}

#[test]
fn dispatch_not_found_and_method_not_allowed() {
    let (r, invoked) = responded(hello_router().dispatch(&get(b"/missing")));
    assert_eq!((r.status, invoked), (404, None));
    let (r, invoked) = responded(hello_router().dispatch(&req(Method::Post, b"/hey", Vec::new(), b"")));
    assert_eq!((r.status, invoked), (405, None));
    for path in [&b"/hey/"[..], b"//hey", b"//"] {
        let (r, invoked) = responded(hello_router().dispatch(&get(path)));
        assert_eq!((r.status, invoked), (404, None));
    }
    let (r, _) = responded(hello_router().dispatch(&req(Method::Post, b"/hey/", Vec::new(), b"")));
    assert_eq!(r.status, 404);
}

#[test]
fn api_handlers() {
    let (r, _) = responded(api_router().dispatch(&get(b"/hey")));
    assert_eq!(r.status, 500);
    let (r, _) = responded(api_router().dispatch(&get(b"/do")));
    assert_eq!(r.status, 200);
}

#[test]
fn guard_rejects_without_json_content_type() {
    let router = guarded_router();
    let (r, invoked) = responded(router.dispatch(&get(b"/")));
    assert_eq!((r.status, invoked), (400, None));
    let h = vec![Header::new(b"content-type", b"text/plain")];
    let (r, invoked) = responded(router.dispatch(&req(Method::Get, b"/", h, b"")));
    assert_eq!((r.status, invoked), (400, None));
    let h = vec![Header::new(b"content-type", b"application/json")];
    let (r, invoked) = responded(router.dispatch(&req(Method::Get, b"/", h, b"")));
    assert_eq!((r.status, invoked), (200, Some(0)));
    assert_eq!(r.body, b"Hello world".to_vec());
}

#[test]
fn check_hello_world_needs_exact_json() {
    assert_eq!(check_hello_world(&vec![Header::new(b"Content-Type", b"application/json")]), Ok(()));
    assert_eq!(
        check_hello_world(&vec![Header::new(b"Content-Type", b"application/json; charset=utf-8")]),
        Err(400)
    );
    assert_eq!(check_hello_world(&Vec::new()), Err(400));
}

#[test]
fn missing_json_field_never_reaches_handler() {
    let router = payload_router();
    let json = || vec![Header::new(b"content-type", b"application/json")];
    let (r, invoked) = responded(router.dispatch(&req(Method::Get, b"/handler", json(), br#"{"bar":1}"#)));
    assert_eq!((r.status, invoked), (422, None));
    let (r, invoked) = responded(router.dispatch(&req(Method::Get, b"/handler", json(), b"not json")));
    assert_eq!((r.status, invoked), (400, None));
    let (r, invoked) = responded(router.dispatch(&req(Method::Get, b"/handler", json(), br#"{"foo":"x"}"#)));
    assert_eq!((r.status, invoked), (200, Some(0)));
}

#[test]
fn payload_branches_by_content_type() {
    let router = payload_router();
    let form = vec![Header::new(b"content-type", b"application/x-www-form-urlencoded")];
    let (r, invoked) = responded(router.dispatch(&req(Method::Get, b"/handler", form.clone_headers(), b"foo=x")));
    assert_eq!((r.status, invoked), (200, Some(0)));
    let (r, invoked) = responded(router.dispatch(&req(Method::Get, b"/handler", form, b"bar=x")));
    assert_eq!((r.status, invoked), (422, None));
    let other = vec![Header::new(b"content-type", b"text/xml")];
    let (r, invoked) = responded(router.dispatch(&req(Method::Get, b"/handler", other, b"<foo/>")));
    assert_eq!((r.status, invoked), (415, None));
}

#[test]
fn unmatched_paths_go_to_static_files() {
    match spa_router().dispatch(&get(b"/app/main.js")) {
        Outcome::ServeFile { path, fallback } => {
            assert_eq!(path, Some(b"dist/app/main.js".to_vec()));
            assert_eq!(fallback, b"dist/index.html".to_vec());
        }
        other => panic!("{:?}", other),
    }
    match spa_router().dispatch(&get(b"/")) {
        Outcome::ServeFile { path, .. } => assert_eq!(path, Some(b"dist/index.html".to_vec())),
        other => panic!("{:?}", other),
    }
    let target = |p: &[u8]| match spa_router().dispatch(&get(p)) {
        Outcome::ServeFile { path, .. } => path,
        other => panic!("{:?}", other),
    };
    assert_eq!(target(b"/../secret"), None);
    assert_eq!(target(b"/%2E%2E/secret"), None);
    assert_eq!(target(b"/a%2F..%2Fb"), None);
    assert_eq!(target(b"/sub/"), Some(b"dist/sub/index.html".to_vec()));
    assert_eq!(target(b"/hello/"), Some(b"dist/hello/index.html".to_vec()));
    assert_eq!(target(b"//hello"), Some(b"dist//hello".to_vec()));
    assert_eq!(target(b"/a%20b.html"), Some(b"dist/a b.html".to_vec()));
    let (r, _) = responded(spa_router().dispatch(&req(Method::Post, b"/x", Vec::new(), b"")));
    assert_eq!(r.status, 404);
}

#[test]
fn missing_file_serves_fallback() {
    let r = static_response(None, Some(b"<html>index</html>".to_vec()));
    assert_eq!(r.status, 200);
    assert_eq!(r.body, b"<html>index</html>".to_vec());
    let r = static_response(Some(b"file".to_vec()), Some(b"index".to_vec()));
    assert_eq!(r.body, b"file".to_vec());
    assert_eq!(static_response(None, None).status, 404);
}

#[test]
fn repeated_get_is_identical() {
    let router = init_router();
    for path in [&b"/hello"[..], b"/json", b"/user", b"/nope"] {
        let a = format!("{:?}", router.dispatch(&get(path)));
        let b = format!("{:?}", router.dispatch(&get(path)));
        assert_eq!(a, b);
    }
    let (r, _) = responded(router.dispatch(&get(b"/user")));
    assert_eq!(r.body, br#"{"id":1001,"name":"rust"}"#.to_vec());
}

#[test]
fn query_route_asks_for_database() {
    match init_router().dispatch(&get(b"/query")) {
        Outcome::Query { route } => assert_eq!(route, 3),
        other => panic!("{:?}", other),
    }
}

#[test]
fn state_router_routes() {
    let (r, invoked) = responded(state_router().dispatch(&get(b"/")));
    assert_eq!((r.status, invoked), (200, Some(0)));
    assert_eq!(r.body, b"Hello world".to_vec());
    let (r, _) = responded(state_router().dispatch(&get(b"/do_something")));
    assert_eq!(r.status, 500);
}

#[test]
fn head_gets_the_get_route() {
    let (r, invoked) = responded(hello_router().dispatch(&req(Method::Head, b"/", Vec::new(), b"")));
    assert_eq!((r.status, invoked), (200, Some(0)));
}

#[test]
fn percent_escapes_are_decoded() {
    assert_eq!(percent_decode(b"a%20b%2fc"), b"a b/c".to_vec());
    assert_eq!(percent_decode(b"100%"), b"100%".to_vec());
    assert_eq!(percent_decode(b"%zz%4"), b"%zz%4".to_vec());
    assert_eq!(percent_decode(b""), b"".to_vec());
}

#[test]
fn query_outcome_statuses() {
    assert_eq!(query_response(true).status, 200);
    assert_eq!(query_response(false).status, 500);
}

#[test]
fn extractor_echoes_the_user() {
    let router = init_router();
    let json = || vec![Header::new(b"content-type", b"application/json")];
    let (r, invoked) = responded(router.dispatch(&req(
        Method::Post,
        b"/extractor",
        json(),
        br#"{"id":-7,"name":"a\"b","extra":true}"#,
    )));
    assert_eq!((r.status, invoked), (200, Some(4)));
    assert_eq!(
        String::from_utf8(r.body).unwrap(),
        r#"The contents of user is: User { id: -7, name: "a\"b" }"#
    );
    let (r, invoked) = responded(router.dispatch(&req(Method::Post, b"/extractor", json(), br#"{"id":1}"#)));
    assert_eq!((r.status, invoked), (422, None));
    let (r, _) = responded(router.dispatch(&req(Method::Post, b"/extractor", json(), b"{")));
    assert_eq!(r.status, 400);
    let (r, _) = responded(router.dispatch(&req(Method::Post, b"/extractor", Vec::new(), br#"{"id":1,"name":"x"}"#)));
    assert_eq!(r.status, 415);
    let (r, _) = responded(router.dispatch(&get(b"/extractor")));
    assert_eq!(r.status, 405);
}
