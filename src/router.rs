use vstd::prelude::*;

use crate::handler::Handler;
use crate::http::Method;
use crate::middleware::Middleware;
use crate::path::{path_segments, split_path, views_of};
use crate::pattern::{
    is_more_specific, params_of, path_params, pattern_matches_path, lemma_specificity_strict, lemma_specificity_total,
    lemma_specificity_transitive, more_specific, parse_pattern, pattern_matches,
    pattern_of, pattern_view, same_shape, shape_equal, Segment, SegmentView,
};
use crate::static_files::StaticMount;

verus! {

/// A registered route: method, pattern, handler and the middleware around it,
/// outermost first.
#[derive(Debug)]
pub struct Route {
    pub method: Method,
    pub pattern: Vec<Segment>,
    pub handler: Handler,
    pub middleware: Vec<Middleware>,
}

impl Route {
    pub open spec fn pat(&self) -> Seq<SegmentView> {
        pattern_view(self.pattern@)
    }
}

/// Why a request found no route.
#[derive(Clone, Copy, Debug, PartialEq, Eq, Structural)]
pub enum RoutingError {
    /// No pattern matches the path.
    NotFound,
    /// A pattern matches the path, but for other methods only.
    MethodNotAllowed,
}

/// Why a route could not be registered.
#[derive(Clone, Copy, Debug, PartialEq, Eq, Structural)]
pub enum RouteError {
    /// A route for the same method with a pattern of the same shape exists:
    /// no path could tell the two apart.
    Ambiguous,
}

/// The route table, with an optional directory of static files that serves
/// paths no route matches.
#[derive(Debug)]
pub struct Router {
    pub routes: Vec<Route>,
    pub static_files: Option<StaticMount>,
}

/// A route for `route_method` serves requests of method `m`: its own method,
/// and `HEAD` where it serves `GET`.
pub open spec fn serves(route_method: Method, m: Method) -> bool {
    route_method == m || (m == Method::Head && route_method == Method::Get)
}

/// Some request method is served by routes of both methods.
pub open spec fn methods_overlap(a: Method, b: Method) -> bool {
    a == b || (a == Method::Get && b == Method::Head) || (a == Method::Head && b == Method::Get)
}

pub open spec fn route_matches(r: Route, m: Method, segs: Seq<Seq<u8>>) -> bool {
    serves(r.method, m) && pattern_matches(r.pat(), segs)
}

/// No two routes whose methods overlap have patterns of the same shape.
pub open spec fn routes_unambiguous(routes: Seq<Route>) -> bool {
    forall|i: int, j: int|
        0 <= i < routes.len() && 0 <= j < routes.len() && i != j && methods_overlap(
            routes[i].method,
            routes[j].method,
        ) ==> !#[trigger] same_shape(routes[i].pat(), routes[j].pat())
}

fn serves_exec(route_method: Method, m: Method) -> (r: bool)
    ensures
        r == serves(route_method, m),
{
    route_method == m || (m == Method::Head && route_method == Method::Get)
}

fn methods_overlap_exec(a: Method, b: Method) -> (r: bool)
    ensures
        r == methods_overlap(a, b),
{
    a == b || (a == Method::Get && b == Method::Head) || (a == Method::Head && b == Method::Get)
}

/// The most specific of the first `n` routes that match; the earlier one wins
/// between equals.
pub open spec fn best_route(routes: Seq<Route>, m: Method, segs: Seq<Seq<u8>>, n: int) -> Option<
    int,
>
    decreases n,
{
    if n <= 0 {
        None
    } else {
        let b = best_route(routes, m, segs, n - 1);
        if route_matches(routes[n - 1], m, segs) && (b is None || more_specific(
            routes[n - 1].pat(),
            routes[b->0].pat(),
        )) {
            Some(n - 1)
        } else {
            b
        }
    }
}

/// Some route's pattern matches the path, whatever its method.
pub open spec fn path_known(routes: Seq<Route>, segs: Seq<Seq<u8>>) -> bool {
    exists|i: int| 0 <= i < routes.len() && pattern_matches(#[trigger] routes[i].pat(), segs)
}

/// The route that serves `m` on the split path `segs`, or why none does.
pub open spec fn resolution(routes: Seq<Route>, m: Method, segs: Seq<Seq<u8>>) -> Result<
    int,
    RoutingError,
> {
    match best_route(routes, m, segs, routes.len() as int) {
        Some(i) => Ok(i),
        None => if path_known(routes, segs) {
            Err(RoutingError::MethodNotAllowed)
        } else {
            Err(RoutingError::NotFound)
        },
    }
}

/// Route `i` matches and is more specific than every other route that matches.
pub open spec fn is_best(routes: Seq<Route>, m: Method, segs: Seq<Seq<u8>>, i: int) -> bool {
    &&& 0 <= i < routes.len()
    &&& route_matches(routes[i], m, segs)
    &&& forall|k: int|
        0 <= k < routes.len() && k != i && route_matches(#[trigger] routes[k], m, segs)
            ==> more_specific(routes[i].pat(), routes[k].pat())
}

proof fn lemma_best_route(routes: Seq<Route>, m: Method, segs: Seq<Seq<u8>>, n: int)
    requires
        0 <= n <= routes.len(),
        routes_unambiguous(routes),
    ensures
        match best_route(routes, m, segs, n) {
            Some(b) => 0 <= b < n && route_matches(routes[b], m, segs) && forall|k: int|
                0 <= k < n && k != b && route_matches(#[trigger] routes[k], m, segs)
                    ==> more_specific(routes[b].pat(), routes[k].pat()),
            None => forall|k: int| 0 <= k < n ==> !route_matches(#[trigger] routes[k], m, segs),
        },
    decreases n,
{
    if n > 0 {
        lemma_best_route(routes, m, segs, n - 1);
        let b = best_route(routes, m, segs, n - 1);
        let r = routes[n - 1];
        if route_matches(r, m, segs) {
            if let Some(bi) = b {
                lemma_specificity_total(r.pat(), routes[bi].pat(), segs);
                if more_specific(r.pat(), routes[bi].pat()) {
                    assert forall|k: int|
                        0 <= k < n && k != n - 1 && route_matches(
                            #[trigger] routes[k],
                            m,
                            segs,
                        ) implies more_specific(r.pat(), routes[k].pat()) by {
                        if k != bi {
                            lemma_specificity_transitive(
                                r.pat(),
                                routes[bi].pat(),
                                routes[k].pat(),
                            );
                        }
                    }
                } else {
                    assert(methods_overlap(routes[n - 1].method, routes[bi].method));
                    assert(!same_shape(routes[n - 1].pat(), routes[bi].pat()));
                }
            }
        }
    }
}

/// A request that some route matches, method and path, is served by exactly
/// one route: the most specific one that matches, which dispatch resolves to.
pub proof fn lemma_matching_request_resolves_to_one_route(
    routes: Seq<Route>,
    m: Method,
    segs: Seq<Seq<u8>>,
    i: int,
)
    requires
        routes_unambiguous(routes),
        0 <= i < routes.len(),
        route_matches(routes[i], m, segs),
    ensures
        resolution(routes, m, segs) is Ok,
        is_best(routes, m, segs, resolution(routes, m, segs)->Ok_0),
        forall|j: int| #[trigger] is_best(routes, m, segs, j) ==> j == resolution(
            routes,
            m,
            segs,
        )->Ok_0,
{
    lemma_best_route(routes, m, segs, routes.len() as int);
    let b = resolution(routes, m, segs)->Ok_0;
    assert forall|j: int| #[trigger] is_best(routes, m, segs, j) implies j == b by {
        if j != b {
            lemma_specificity_strict(routes[j].pat(), routes[b].pat());
        }
    }
}

/// A path that no pattern matches resolves to `NotFound`; a path that some
/// pattern matches, but for no route of the request's method, resolves to
/// `MethodNotAllowed`.
pub proof fn lemma_unmatched_requests_fail(routes: Seq<Route>, m: Method, segs: Seq<Seq<u8>>)
    requires
        routes_unambiguous(routes),
        forall|k: int| 0 <= k < routes.len() ==> !route_matches(#[trigger] routes[k], m, segs),
    ensures
        !path_known(routes, segs) ==> resolution(routes, m, segs) == Err::<int, RoutingError>(
            RoutingError::NotFound,
        ),
        path_known(routes, segs) ==> resolution(routes, m, segs) == Err::<int, RoutingError>(
            RoutingError::MethodNotAllowed,
        ),
{
    lemma_best_route(routes, m, segs, routes.len() as int);
}

impl Router {
    pub open spec fn wf(&self) -> bool {
        routes_unambiguous(self.routes@)
    }

    /// An empty router.
    pub fn new() -> (r: Router)
        ensures
            r.wf(),
            r.routes@.len() == 0,
            r.static_files is None,
    {
        Router { routes: Vec::new(), static_files: None }
    }

    /// Adds a route for `method` and `pattern`, unless a route whose method
    /// overlaps (the same, or `GET` and `HEAD`) with a pattern of the same
    /// shape is there already.
    pub fn register(
        &mut self,
        method: Method,
        pattern: &[u8],
        handler: Handler,
        middleware: Vec<Middleware>,
    ) -> (r: Result<(), RouteError>)
        requires
            old(self).wf(),
        ensures
            final(self).wf(),
            final(self).static_files == old(self).static_files,
            r is Err <==> exists|k: int|
                0 <= k < old(self).routes@.len() && methods_overlap(old(self).routes@[k].method, method)
                    && #[trigger] same_shape(old(self).routes@[k].pat(), pattern_of(pattern@)),
            r is Err ==> final(self).routes@ == old(self).routes@,
            r is Ok ==> final(self).routes@.len() == old(self).routes@.len() + 1
                && final(self).routes@.take(old(self).routes@.len() as int) == old(self).routes@
                && final(self).routes@.last().method == method
                && final(self).routes@.last().pat() == pattern_of(pattern@)
                && final(self).routes@.last().handler == handler
                && final(self).routes@.last().middleware == middleware,
    {
        let pat = parse_pattern(pattern);
        let mut k: usize = 0;
        while k < self.routes.len()
            invariant
                k <= self.routes@.len(),
                self.routes@ == old(self).routes@,
                self.static_files == old(self).static_files,
                old(self).wf(),
                pattern_view(pat@) == pattern_of(pattern@),
                forall|j: int|
                    0 <= j < k && methods_overlap(self.routes@[j].method, method) ==> !#[trigger] same_shape(
                        self.routes@[j].pat(),
                        pattern_of(pattern@),
                    ),
            decreases self.routes.len() - k,
        {
            let route = &self.routes[k];
            if methods_overlap_exec(route.method, method) && shape_equal(&route.pattern, &pat) {
                assert(same_shape(old(self).routes@[k as int].pat(), pattern_of(pattern@)));
                return Err(RouteError::Ambiguous);
            }
            k = k + 1;
        }
        let ghost before = self.routes@;
        self.routes.push(Route { method, pattern: pat, handler, middleware });
        assert(self.routes@.take(before.len() as int) == before);
        assert forall|i: int, j: int|
            0 <= i < self.routes@.len() && 0 <= j < self.routes@.len() && i != j
                && methods_overlap(self.routes@[i].method, self.routes@[j].method) implies !#[trigger] same_shape(
            self.routes@[i].pat(),
            self.routes@[j].pat(),
        ) by {
            if i == before.len() {
                assert(!same_shape(before[j].pat(), pattern_of(pattern@)));
                if same_shape(self.routes@[i].pat(), self.routes@[j].pat()) {
                    assert(same_shape(before[j].pat(), pattern_of(pattern@)));
                }
            } else if j == before.len() {
                assert(!same_shape(before[i].pat(), pattern_of(pattern@)));
            } else {
                assert(before[i] == self.routes@[i] && before[j] == self.routes@[j]);
            }
        }
        Ok(())
    }

    /// The index of the route that serves `method` on the split path `segs`.
    pub fn resolve_segments(&self, method: Method, segs: &Vec<Vec<u8>>) -> (r: Result<
        usize,
        RoutingError,
    >)
        ensures
            r is Ok ==> r->Ok_0 < self.routes@.len(),
            match r {
                Ok(i) => resolution(self.routes@, method, views_of(segs@)) == Ok::<
                    int,
                    RoutingError,
                >(i as int),
                Err(e) => resolution(self.routes@, method, views_of(segs@)) == Err::<
                    int,
                    RoutingError,
                >(e),
            },
    {
        let ghost s = views_of(segs@);
        let mut best: Option<usize> = None;
        let mut known = false;
        let mut k: usize = 0;
        while k < self.routes.len()
            invariant
                k <= self.routes@.len(),
                s == views_of(segs@),
                match best {
                    Some(b) => b < k && best_route(self.routes@, method, s, k as int) == Some(
                        b as int,
                    ),
                    None => best_route(self.routes@, method, s, k as int) is None,
                },
                known <==> exists|j: int|
                    0 <= j < k && pattern_matches(#[trigger] self.routes@[j].pat(), s),
            decreases self.routes.len() - k,
        {
            let route = &self.routes[k];
            let hit = pattern_matches_path(&route.pattern, segs);
            assert(hit == pattern_matches(self.routes@[k as int].pat(), s));
            if hit {
                known = true;
                if serves_exec(route.method, method) {
                    let better = match best {
                        None => true,
                        Some(b) => is_more_specific(&route.pattern, &self.routes[b].pattern),
                    };
                    if better {
                        best = Some(k);
                    }
                }
            }
            k = k + 1;
        }
        match best {
            Some(b) => Ok(b),
            None => if known {
                Err(RoutingError::MethodNotAllowed)
            } else {
                Err(RoutingError::NotFound)
            },
        }
    }

    /// The route that serves `method` on `path`, with the named parameters
    /// that the path gives its pattern.
    pub fn resolve_with_params(&self, method: Method, path: &[u8]) -> (r: Result<
        (usize, Vec<(Vec<u8>, Vec<u8>)>),
        RoutingError,
    >)
        requires
            self.wf(),
        ensures
            match r {
                Ok((i, ps)) => resolution(self.routes@, method, path_segments(path@)) == Ok::<
                    int,
                    RoutingError,
                >(i as int) && ps@.map_values(|x: (Vec<u8>, Vec<u8>)| (x.0@, x.1@)) == params_of(
                    self.routes@[i as int].pat(),
                    path_segments(path@),
                ),
                Err(e) => resolution(self.routes@, method, path_segments(path@)) == Err::<
                    int,
                    RoutingError,
                >(e),
            },
    {
        let segs = split_path(path);
        match self.resolve_segments(method, &segs) {
            Ok(i) => {
                proof {
                    lemma_best_route(self.routes@, method, views_of(segs@), self.routes@.len() as int);
                }
                let ps = path_params(&self.routes[i].pattern, &segs);
                Ok((i, ps))
            },
            Err(e) => Err(e),
        }
    }

    /// The index of the route that serves `method` on `path`.
    pub fn resolve(&self, method: Method, path: &[u8]) -> (r: Result<usize, RoutingError>)
        ensures
            match r {
                Ok(i) => resolution(self.routes@, method, path_segments(path@)) == Ok::<
                    int,
                    RoutingError,
                >(i as int),
                Err(e) => resolution(self.routes@, method, path_segments(path@)) == Err::<
                    int,
                    RoutingError,
                >(e),
            },
    {
        let segs = split_path(path);
        self.resolve_segments(method, &segs)
    }
}

} // verus!
