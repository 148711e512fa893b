use vstd::prelude::*;

use crate::handler::Handler;
use crate::http::{content_type_name, json_mime, Method};
use crate::middleware::Middleware;
use crate::path::SLASH;
use crate::pattern::{
    lemma_one_literal_pattern, pattern_of, same_shape, shape, SegmentView,
};
use crate::router::{methods_overlap, Route, Router};
use crate::static_files::StaticMount;

verus! {

/// `hey`
pub open spec fn hey_word() -> Seq<u8> {
    seq![0x68, 0x65, 0x79]
}

fn hey_word_bytes() -> (r: Vec<u8>)
    ensures
        r@ == hey_word(),
{
    let r: Vec<u8> = vec![0x68, 0x65, 0x79];
    assert(r@ == hey_word());
    r
}

/// `do`
pub open spec fn do_word() -> Seq<u8> {
    seq![0x64, 0x6f]
}

fn do_word_bytes() -> (r: Vec<u8>)
    ensures
        r@ == do_word(),
{
    let r: Vec<u8> = vec![0x64, 0x6f];
    assert(r@ == do_word());
    r
}

/// `handler`
pub open spec fn handler_word() -> Seq<u8> {
    seq![0x68, 0x61, 0x6e, 0x64, 0x6c, 0x65, 0x72]
}

fn handler_word_bytes() -> (r: Vec<u8>)
    ensures
        r@ == handler_word(),
{
    let r: Vec<u8> = vec![0x68, 0x61, 0x6e, 0x64, 0x6c, 0x65, 0x72];
    assert(r@ == handler_word());
    r
}

/// `hello`
pub open spec fn hello_word() -> Seq<u8> {
    seq![0x68, 0x65, 0x6c, 0x6c, 0x6f]
}

fn hello_word_bytes() -> (r: Vec<u8>)
    ensures
        r@ == hello_word(),
{
    let r: Vec<u8> = vec![0x68, 0x65, 0x6c, 0x6c, 0x6f];
    assert(r@ == hello_word());
    r
}

/// `json`
pub open spec fn json_word() -> Seq<u8> {
    seq![0x6a, 0x73, 0x6f, 0x6e]
}

fn json_word_bytes() -> (r: Vec<u8>)
    ensures
        r@ == json_word(),
{
    let r: Vec<u8> = vec![0x6a, 0x73, 0x6f, 0x6e];
    assert(r@ == json_word());
    r
}

/// `user`
pub open spec fn user_word() -> Seq<u8> {
    seq![0x75, 0x73, 0x65, 0x72]
}

fn user_word_bytes() -> (r: Vec<u8>)
    ensures
        r@ == user_word(),
{
    let r: Vec<u8> = vec![0x75, 0x73, 0x65, 0x72];
    assert(r@ == user_word());
    r
}

/// `query`
pub open spec fn query_word() -> Seq<u8> {
    seq![0x71, 0x75, 0x65, 0x72, 0x79]
}

fn query_word_bytes() -> (r: Vec<u8>)
    ensures
        r@ == query_word(),
{
    let r: Vec<u8> = vec![0x71, 0x75, 0x65, 0x72, 0x79];
    assert(r@ == query_word());
    r
}

/// `do_something`
pub open spec fn do_something_word() -> Seq<u8> {
    seq![0x64, 0x6f, 0x5f, 0x73, 0x6f, 0x6d, 0x65, 0x74, 0x68, 0x69, 0x6e, 0x67]
}

fn do_something_word_bytes() -> (r: Vec<u8>)
    ensures
        r@ == do_something_word(),
{
    let r: Vec<u8> = vec![0x64, 0x6f, 0x5f, 0x73, 0x6f, 0x6d, 0x65, 0x74, 0x68, 0x69, 0x6e, 0x67];
    assert(r@ == do_something_word());
    r
}

/// `Hello world!`
pub open spec fn hello_text() -> Seq<u8> {
    seq![0x48, 0x65, 0x6c, 0x6c, 0x6f, 0x20, 0x77, 0x6f, 0x72, 0x6c, 0x64, 0x21]
}

fn hello_text_bytes() -> (r: Vec<u8>)
    ensures
        r@ == hello_text(),
{
    let r: Vec<u8> = vec![0x48, 0x65, 0x6c, 0x6c, 0x6f, 0x20, 0x77, 0x6f, 0x72, 0x6c, 0x64, 0x21];
    assert(r@ == hello_text());
    r
}

/// `Hello world`
pub open spec fn hello_plain_text() -> Seq<u8> {
    seq![0x48, 0x65, 0x6c, 0x6c, 0x6f, 0x20, 0x77, 0x6f, 0x72, 0x6c, 0x64]
}

fn hello_plain_text_bytes() -> (r: Vec<u8>)
    ensures
        r@ == hello_plain_text(),
{
    let r: Vec<u8> = vec![0x48, 0x65, 0x6c, 0x6c, 0x6f, 0x20, 0x77, 0x6f, 0x72, 0x6c, 0x64];
    assert(r@ == hello_plain_text());
    r
}

/// `dist`
pub open spec fn dist_dir() -> Seq<u8> {
    seq![0x64, 0x69, 0x73, 0x74]
}

fn dist_dir_bytes() -> (r: Vec<u8>)
    ensures
        r@ == dist_dir(),
{
    let r: Vec<u8> = vec![0x64, 0x69, 0x73, 0x74];
    assert(r@ == dist_dir());
    r
}

/// `dist/index.html`
pub open spec fn dist_index() -> Seq<u8> {
    seq![0x64, 0x69, 0x73, 0x74, 0x2f, 0x69, 0x6e, 0x64, 0x65, 0x78, 0x2e, 0x68, 0x74, 0x6d, 0x6c]
}

fn dist_index_bytes() -> (r: Vec<u8>)
    ensures
        r@ == dist_index(),
{
    let r: Vec<u8> = vec![0x64, 0x69, 0x73, 0x74, 0x2f, 0x69, 0x6e, 0x64, 0x65, 0x78, 0x2e, 0x68, 0x74, 0x6d, 0x6c];
    assert(r@ == dist_index());
    r
}

/// `static`
pub open spec fn static_dir() -> Seq<u8> {
    seq![0x73, 0x74, 0x61, 0x74, 0x69, 0x63]
}

fn static_dir_bytes() -> (r: Vec<u8>)
    ensures
        r@ == static_dir(),
{
    let r: Vec<u8> = vec![0x73, 0x74, 0x61, 0x74, 0x69, 0x63];
    assert(r@ == static_dir());
    r
}

/// `static/index.html`
pub open spec fn static_index() -> Seq<u8> {
    seq![0x73, 0x74, 0x61, 0x74, 0x69, 0x63, 0x2f, 0x69, 0x6e, 0x64, 0x65, 0x78, 0x2e, 0x68, 0x74, 0x6d, 0x6c]
}

fn static_index_bytes() -> (r: Vec<u8>)
    ensures
        r@ == static_index(),
{
    let r: Vec<u8> = vec![0x73, 0x74, 0x61, 0x74, 0x69, 0x63, 0x2f, 0x69, 0x6e, 0x64, 0x65, 0x78, 0x2e, 0x68, 0x74, 0x6d, 0x6c];
    assert(r@ == static_index());
    r
}

/// `extractor`
pub open spec fn extractor_word() -> Seq<u8> {
    seq![0x65, 0x78, 0x74, 0x72, 0x61, 0x63, 0x74, 0x6f, 0x72]
}

fn extractor_word_bytes() -> (r: Vec<u8>)
    ensures
        r@ == extractor_word(),
{
    let r: Vec<u8> = vec![0x65, 0x78, 0x74, 0x72, 0x61, 0x63, 0x74, 0x6f, 0x72];
    assert(r@ == extractor_word());
    r
}

/// A route for GET with no middleware.
pub open spec fn plain_get(rt: Route) -> bool {
    rt.method == Method::Get && rt.middleware@.len() == 0
}

/// The pattern of `/<w>`: the empty literal, then the literal `w`.
pub open spec fn literal_at(rt: Route, w: Seq<u8>) -> bool {
    &&& rt.pat() == pattern_of(seq![SLASH] + w)
    &&& rt.pat() == seq![SegmentView::Literal(Seq::empty()), SegmentView::Literal(w)]
}

/// The pattern of `/`: two empty literals.
pub open spec fn at_root(rt: Route) -> bool {
    &&& rt.pat() == pattern_of(seq![SLASH])
    &&& rt.pat() == seq![
        SegmentView::Literal(Seq::empty()),
        SegmentView::Literal(Seq::empty()),
    ]
}

/// A handler that answers the text `t`.
pub open spec fn answers_text(h: Handler, t: Seq<u8>) -> bool {
    h matches Handler::Text(b) && b@ == t
}

/// A stage that requires the content type `application/json`.
pub open spec fn requires_json(m: Middleware) -> bool {
    m matches Middleware::RequireHeader { name, value } && name@ == content_type_name() && value@
        == json_mime()
}

proof fn lemma_distinct_literals(a: Seq<u8>, b: Seq<u8>)
    requires
        a != b,
    ensures
        !same_shape(
            seq![SegmentView::Literal(Seq::empty()), SegmentView::Literal(a)],
            seq![SegmentView::Literal(Seq::empty()), SegmentView::Literal(b)],
        ),
{
    let pa = seq![SegmentView::Literal(Seq::<u8>::empty()), SegmentView::Literal(a)];
    let pb = seq![SegmentView::Literal(Seq::<u8>::empty()), SegmentView::Literal(b)];
    assert(shape(pa[1]) != shape(pb[1]));
}

proof fn lemma_root_pattern()
    ensures
        pattern_of(seq![SLASH]) == seq![
            SegmentView::Literal(Seq::empty()),
            SegmentView::Literal(Seq::empty()),
        ],
{
    lemma_one_literal_pattern(Seq::empty());
    assert(seq![SLASH] + Seq::<u8>::empty() == seq![SLASH]);
}

/// The routes before the last one stay as they were.
pub open spec fn extends(new: Seq<Route>, old: Seq<Route>) -> bool {
    &&& new.len() == old.len() + 1
    &&& forall|k: int| 0 <= k < old.len() ==> #[trigger] new[k] == old[k]
}

fn add_route(
    r: &mut Router,
    method: Method,
    path: Vec<u8>,
    handler: Handler,
    middleware: Vec<Middleware>,
)
    requires
        old(r).wf(),
        forall|k: int|
            0 <= k < old(r).routes@.len() && methods_overlap(old(r).routes@[k].method, method)
                ==> !same_shape(
                #[trigger] old(r).routes@[k].pat(),
                pattern_of(path@),
            ),
    ensures
        final(r).wf(),
        final(r).static_files == old(r).static_files,
        extends(final(r).routes@, old(r).routes@),
        final(r).routes@.last().method == method,
        final(r).routes@.last().pat() == pattern_of(path@),
        final(r).routes@.last().handler == handler,
        final(r).routes@.last().middleware == middleware,
{
    let ghost before = r.routes@;
    let res = r.register(method, &path, handler, middleware);
    assert(res is Ok);
    assert forall|k: int| 0 <= k < before.len() implies #[trigger] r.routes@[k] == before[k] by {
        assert(r.routes@.take(before.len() as int)[k] == r.routes@[k]);
    }
}

fn slash_then(w: Vec<u8>) -> (r: Vec<u8>)
    ensures
        r@ == seq![SLASH] + w@,
{
    let mut r: Vec<u8> = Vec::new();
    r.push(SLASH);
    crate::json::append_bytes(&mut r, &w);
    r
}

fn root_path() -> (r: Vec<u8>)
    ensures
        r@ == seq![SLASH],
{
    let r: Vec<u8> = vec![SLASH];
    r
}

/// `/` answers `Hello world!`, `/hey` the user `cdd` as JSON.
pub fn hello_router() -> (r: Router)
    ensures
        r.wf(),
        r.static_files is None,
        r.routes@.len() == 2,
        plain_get(r.routes@[0]) && at_root(r.routes@[0]),
        answers_text(r.routes@[0].handler, hello_text()),
        plain_get(r.routes@[1]) && literal_at(r.routes@[1], hey_word()),
        r.routes@[1].handler == Handler::Hey,
{
    let mut r = Router::new();
    proof {
        lemma_root_pattern();
        lemma_one_literal_pattern(hey_word());
        lemma_distinct_literals(Seq::empty(), hey_word());
    }
    add_route(&mut r, Method::Get, root_path(), Handler::Text(hello_text_bytes()), Vec::new());
    add_route(&mut r, Method::Get, slash_then(hey_word_bytes()), Handler::Hey, Vec::new());
    r
}

/// `/hey` fails with an internal server error, `/do` answers a bare `200`.
pub fn api_router() -> (r: Router)
    ensures
        r.wf(),
        r.static_files is None,
        r.routes@.len() == 2,
        plain_get(r.routes@[0]) && literal_at(r.routes@[0], hey_word()),
        r.routes@[0].handler == Handler::FailingHey,
        plain_get(r.routes@[1]) && literal_at(r.routes@[1], do_word()),
        r.routes@[1].handler == Handler::DoSomething,
{
    let mut r = Router::new();
    proof {
        lemma_one_literal_pattern(hey_word());
        lemma_one_literal_pattern(do_word());
        lemma_distinct_literals(hey_word(), do_word());
    }
    add_route(&mut r, Method::Get, slash_then(hey_word_bytes()), Handler::FailingHey, Vec::new());
    add_route(&mut r, Method::Get, slash_then(do_word_bytes()), Handler::DoSomething, Vec::new());
    r
}

/// `/` answers `Hello world`; `/do_something`, whose handler is not written
/// yet, answers an internal server error.
pub fn state_router() -> (r: Router)
    ensures
        r.wf(),
        r.static_files is None,
        r.routes@.len() == 2,
        plain_get(r.routes@[0]) && at_root(r.routes@[0]),
        answers_text(r.routes@[0].handler, hello_plain_text()),
        plain_get(r.routes@[1]) && literal_at(r.routes@[1], do_something_word()),
        r.routes@[1].handler == Handler::FailingHey,
{
    let mut r = Router::new();
    proof {
        lemma_root_pattern();
        lemma_one_literal_pattern(do_something_word());
        lemma_distinct_literals(Seq::empty(), do_something_word());
    }
    add_route(&mut r, Method::Get, root_path(), Handler::Text(hello_plain_text_bytes()), Vec::new());
    add_route(
        &mut r,
        Method::Get,
        slash_then(do_something_word_bytes()),
        Handler::FailingHey,
        Vec::new(),
    );
    r
}

/// `/handler` reads a payload as JSON or as a form.
pub fn payload_router() -> (r: Router)
    ensures
        r.wf(),
        r.static_files is None,
        r.routes@.len() == 1,
        plain_get(r.routes@[0]) && literal_at(r.routes@[0], handler_word()),
        r.routes@[0].handler == Handler::Payload,
{
    let mut r = Router::new();
    proof {
        lemma_one_literal_pattern(handler_word());
    }
    add_route(&mut r, Method::Get, slash_then(handler_word_bytes()), Handler::Payload, Vec::new());
    r
}

/// `/` answers `Hello world`, behind two stages that each require the
/// content type `application/json`.
pub fn guarded_router() -> (r: Router)
    ensures
        r.wf(),
        r.static_files is None,
        r.routes@.len() == 1,
        r.routes@[0].method == Method::Get && at_root(r.routes@[0]),
        answers_text(r.routes@[0].handler, hello_plain_text()),
        r.routes@[0].middleware@.len() == 2,
        requires_json(r.routes@[0].middleware@[0]),
        requires_json(r.routes@[0].middleware@[1]),
{
    let mut r = Router::new();
    let mut mws: Vec<Middleware> = Vec::new();
    mws.push(Middleware::require_json());
    mws.push(Middleware::require_json());
    proof {
        lemma_root_pattern();
    }
    add_route(&mut r, Method::Get, root_path(), Handler::Text(hello_plain_text_bytes()), mws);
    r
}

/// `/hello` answers `Hello world!`; every other path is a file of `dist`,
/// with `dist/index.html` where there is none.
pub fn spa_router() -> (r: Router)
    ensures
        r.wf(),
        r.routes@.len() == 1,
        plain_get(r.routes@[0]) && literal_at(r.routes@[0], hello_word()),
        answers_text(r.routes@[0].handler, hello_text()),
        r.static_files is Some,
        r.static_files->0.dir@ == dist_dir(),
        r.static_files->0.fallback@ == dist_index(),
{
    let mut r = Router::new();
    proof {
        lemma_one_literal_pattern(hello_word());
    }
    add_route(&mut r, Method::Get, slash_then(hello_word_bytes()), Handler::Text(hello_text_bytes()), Vec::new());
    r.static_files = Some(StaticMount { dir: dist_dir_bytes(), fallback: dist_index_bytes() });
    r
}

/// The simple web server: text, JSON, a user, a database query, a user read
/// from a JSON body, and the files of `static` for every other path, with
/// `static/index.html` where there is none.
pub fn init_router() -> (r: Router)
    ensures
        r.wf(),
        r.routes@.len() == 5,
        plain_get(r.routes@[0]) && literal_at(r.routes@[0], hello_word()),
        answers_text(r.routes@[0].handler, hello_plain_text()),
        plain_get(r.routes@[1]) && literal_at(r.routes@[1], json_word()),
        r.routes@[1].handler == Handler::GetSomeJson,
        plain_get(r.routes@[2]) && literal_at(r.routes@[2], user_word()),
        r.routes@[2].handler == Handler::GetUser,
        plain_get(r.routes@[3]) && literal_at(r.routes@[3], query_word()),
        r.routes@[3].handler == Handler::QueryUsers,
        r.routes@[4].method == Method::Post && r.routes@[4].middleware@.len() == 0,
        literal_at(r.routes@[4], extractor_word()),
        r.routes@[4].handler == Handler::EchoUser,
        r.static_files is Some,
        r.static_files->0.dir@ == static_dir(),
        r.static_files->0.fallback@ == static_index(),
{
    let mut r = Router::new();
    proof {
        lemma_one_literal_pattern(hello_word());
        lemma_one_literal_pattern(json_word());
        lemma_one_literal_pattern(user_word());
        lemma_one_literal_pattern(query_word());
        lemma_distinct_literals(hello_word(), json_word());
        lemma_distinct_literals(hello_word(), user_word());
        lemma_distinct_literals(hello_word(), query_word());
        lemma_distinct_literals(json_word(), user_word());
        lemma_distinct_literals(json_word(), query_word());
        lemma_distinct_literals(user_word(), query_word());
        lemma_one_literal_pattern(extractor_word());
    }
    add_route(&mut r, Method::Get, slash_then(hello_word_bytes()), Handler::Text(hello_plain_text_bytes()), Vec::new());
    add_route(&mut r, Method::Get, slash_then(json_word_bytes()), Handler::GetSomeJson, Vec::new());
    add_route(&mut r, Method::Get, slash_then(user_word_bytes()), Handler::GetUser, Vec::new());
    add_route(&mut r, Method::Get, slash_then(query_word_bytes()), Handler::QueryUsers, Vec::new());
    add_route(&mut r, Method::Post, slash_then(extractor_word_bytes()), Handler::EchoUser, Vec::new());
    r.static_files = Some(StaticMount { dir: static_dir_bytes(), fallback: static_index_bytes() });
    r
}

} // verus!
