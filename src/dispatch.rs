use vstd::prelude::*;

use crate::extract::status_of_kind;
use crate::handler::{handler_reply, Reply, ReplyView};
use crate::http::{
    content_type_name, header_value, headers_view, json_mime, Method, Request, Response,
    ResponseView, STATUS_BAD_REQUEST, STATUS_INTERNAL_SERVER_ERROR, STATUS_OK, STATUS_METHOD_NOT_ALLOWED, STATUS_NOT_FOUND,
};
use crate::middleware::{chain_passes, guard_passes, run_chain, Middleware};
use crate::path::{path_segments, split_path};
use crate::respond::{bare, status_only};
use crate::router::{
    is_best, lemma_matching_request_resolves_to_one_route, resolution, route_matches, Router,
    RoutingError,
};
use crate::static_files::{static_file_path, static_target};

verus! {

/// What dispatching a request comes to.
#[derive(Debug)]
pub enum Outcome {
    /// The response, and the route whose handler ran to make it, if one did.
    Respond { response: Response, invoked: Option<usize> },
    /// No route matched: serve the file at `path` (if the path names one)
    /// from the static directory, else the `fallback` file.
    ServeFile { path: Option<Vec<u8>>, fallback: Vec<u8> },
    /// The handler of `route` ran and needs the database query run; its
    /// response follows from that.
    Query { route: usize },
}

pub enum OutcomeView {
    Respond { response: ResponseView, invoked: Option<int> },
    ServeFile { path: Option<Seq<u8>>, fallback: Seq<u8> },
    Query { route: int },
}

impl View for Outcome {
    type V = OutcomeView;

    open spec fn view(&self) -> OutcomeView {
        match self {
            Outcome::Respond { response, invoked } => OutcomeView::Respond {
                response: response@,
                invoked: match invoked {
                    Some(i) => Some(*i as int),
                    None => None,
                },
            },
            Outcome::ServeFile { path, fallback } => OutcomeView::ServeFile {
                path: match path {
                    Some(p) => Some(p@),
                    None => None,
                },
                fallback: fallback@,
            },
            Outcome::Query { route } => OutcomeView::Query { route: *route as int },
        }
    }
}

pub open spec fn rejected(status: u16) -> OutcomeView {
    OutcomeView::Respond { response: bare(status), invoked: None }
}

/// What dispatching a request with this method, path, headers and body comes to.
pub open spec fn dispatch_view(
    router: Router,
    method: Method,
    path: Seq<u8>,
    hs: Seq<(Seq<u8>, Seq<u8>)>,
    body: Seq<u8>,
) -> OutcomeView {
    let segs = path_segments(path);
    match resolution(router.routes@, method, segs) {
        Ok(i) => {
            let route = router.routes@[i];
            if !chain_passes(route.middleware@, hs) {
                rejected(STATUS_BAD_REQUEST)
            } else {
                match handler_reply(route.handler, hs, body) {
                    Err(k) => rejected(status_of_kind(k)),
                    Ok(ReplyView::Respond(r)) => OutcomeView::Respond { response: r, invoked: Some(i) },
                    Ok(ReplyView::Query) => OutcomeView::Query { route: i },
                }
            }
        },
        Err(RoutingError::NotFound) => match router.static_files {
            Some(m) => if method == Method::Get || method == Method::Head {
                OutcomeView::ServeFile { path: static_target(m.dir@, segs), fallback: m.fallback@ }
            } else {
                rejected(STATUS_NOT_FOUND)
            },
            None => rejected(STATUS_NOT_FOUND),
        },
        Err(RoutingError::MethodNotAllowed) => rejected(STATUS_METHOD_NOT_ALLOWED),
    }
}

pub open spec fn request_outcome(router: Router, req: Request) -> OutcomeView {
    dispatch_view(router, req.method, req.path@, headers_view(req.headers@), req.body@)
}

impl Router {
    /// Dispatches a request: routing, then the route's middleware in order,
    /// then extraction and the handler.
    pub fn dispatch(&self, req: &Request) -> (r: Outcome)
        ensures
            r@ == request_outcome(*self, *req),
    {
        let segs = split_path(&req.path);
        match self.resolve_segments(req.method, &segs) {
            Ok(i) => {
                let route = &self.routes[i];
                if run_chain(&route.middleware, &req.headers).is_err() {
                    return Outcome::Respond { response: status_only(STATUS_BAD_REQUEST), invoked: None };
                }
                match route.handler.run(&req.headers, &req.body) {
                    Err(k) => Outcome::Respond { response: status_only(k.status()), invoked: None },
                    Ok(Reply::Respond(response)) => Outcome::Respond { response, invoked: Some(i) },
                    Ok(Reply::Query) => Outcome::Query { route: i },
                }
            },
            Err(RoutingError::NotFound) => match &self.static_files {
                Some(m) => if req.method == Method::Get || req.method == Method::Head {
                    let mut fallback: Vec<u8> = Vec::new();
                    crate::json::append_bytes(&mut fallback, &m.fallback);
                    Outcome::ServeFile { path: static_file_path(&m.dir, &segs), fallback }
                } else {
                    Outcome::Respond { response: status_only(STATUS_NOT_FOUND), invoked: None }
                },
                None => Outcome::Respond { response: status_only(STATUS_NOT_FOUND), invoked: None },
            },
            Err(RoutingError::MethodNotAllowed) => Outcome::Respond {
                response: status_only(STATUS_METHOD_NOT_ALLOWED),
                invoked: None,
            },
        }
    }
}

/// The response after the database query of a route ran: `200`, or `500`
/// where the query failed.
pub fn query_response(succeeded: bool) -> (r: Response)
    ensures
        r@ == bare(if succeeded { STATUS_OK } else { STATUS_INTERNAL_SERVER_ERROR }),
{
    if succeeded {
        status_only(STATUS_OK)
    } else {
        status_only(STATUS_INTERNAL_SERVER_ERROR)
    }
}

/// A request that a route matches runs the handler of exactly one route, the
/// most specific match, unless a middleware stage or an extraction rejects it
/// first; then no handler runs at all.
pub proof fn lemma_matching_request_invokes_one_handler(
    router: Router,
    method: Method,
    path: Seq<u8>,
    hs: Seq<(Seq<u8>, Seq<u8>)>,
    body: Seq<u8>,
    i: int,
)
    requires
        router.wf(),
        0 <= i < router.routes@.len(),
        route_matches(router.routes@[i], method, path_segments(path)),
    ensures
        ({
            let segs = path_segments(path);
            let b = resolution(router.routes@, method, segs)->Ok_0;
            &&& resolution(router.routes@, method, segs) is Ok
            &&& is_best(router.routes@, method, segs, b)
            &&& forall|j: int| #[trigger] is_best(router.routes@, method, segs, j) ==> j == b
            &&& match dispatch_view(router, method, path, hs, body) {
                OutcomeView::Respond { invoked, .. } => invoked == Some(b) || invoked is None,
                OutcomeView::Query { route } => route == b,
                OutcomeView::ServeFile { .. } => false,
            }
            &&& chain_passes(router.routes@[b].middleware@, hs) && handler_reply(
                router.routes@[b].handler,
                hs,
                body,
            ) is Ok ==> match dispatch_view(router, method, path, hs, body) {
                OutcomeView::Respond { invoked, .. } => invoked == Some(b),
                OutcomeView::Query { route } => route == b,
                OutcomeView::ServeFile { .. } => false,
            }
        }),
{
    lemma_matching_request_resolves_to_one_route(
        router.routes@,
        method,
        path_segments(path),
        i,
    );
}

/// An extraction failure becomes a `4xx` response with the status of its
/// kind, and the handler is not invoked.
pub proof fn lemma_extraction_failure_rejects(
    router: Router,
    method: Method,
    path: Seq<u8>,
    hs: Seq<(Seq<u8>, Seq<u8>)>,
    body: Seq<u8>,
)
    requires
        resolution(router.routes@, method, path_segments(path)) is Ok,
        chain_passes(
            router.routes@[resolution(router.routes@, method, path_segments(path))->Ok_0].middleware@,
            hs,
        ),
        handler_reply(
            router.routes@[resolution(router.routes@, method, path_segments(path))->Ok_0].handler,
            hs,
            body,
        ) is Err,
    ensures
        ({
            let k = handler_reply(
                router.routes@[resolution(router.routes@, method, path_segments(path))->Ok_0].handler,
                hs,
                body,
            )->Err_0;
            &&& dispatch_view(router, method, path, hs, body) == rejected(status_of_kind(k))
            &&& 400 <= status_of_kind(k) < 500
        }),
{
}

/// A route guarded by the stage that requires the content type
/// `application/json` answers a request without it with `400`, and its
/// handler is not invoked.
pub proof fn lemma_json_guard_short_circuits(
    router: Router,
    method: Method,
    path: Seq<u8>,
    hs: Seq<(Seq<u8>, Seq<u8>)>,
    body: Seq<u8>,
    k: int,
)
    requires
        resolution(router.routes@, method, path_segments(path)) is Ok,
        ({
            let mws = router.routes@[resolution(router.routes@, method, path_segments(path))->Ok_0].middleware@;
            &&& 0 <= k < mws.len()
            &&& mws[k] matches Middleware::RequireHeader { name, value }
            &&& name@ == content_type_name()
            &&& value@ == json_mime()
        }),
        header_value(hs, content_type_name()) != Some(json_mime()),
    ensures
        dispatch_view(router, method, path, hs, body) == rejected(STATUS_BAD_REQUEST),
{
    let mws = router.routes@[resolution(router.routes@, method, path_segments(path))->Ok_0].middleware@;
    assert(!guard_passes(mws[k], hs));
}

/// Dispatch depends on the request's contents alone: two requests with the
/// same method, path, headers and body come to the same outcome, byte for byte.
pub proof fn lemma_dispatch_deterministic(router: Router, a: Request, b: Request)
    requires
        a.method == b.method,
        a.path@ == b.path@,
        headers_view(a.headers@) == headers_view(b.headers@),
        a.body@ == b.body@,
    ensures
        request_outcome(router, a) == request_outcome(router, b),
{
}

} // verus!
