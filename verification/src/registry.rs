//! The routes of a server in the order of their registration, and the choice
//! of the route that serves a request.

use crate::engine::regex_groups;
use crate::handler::RouteHandler;
use crate::http::{Method, PathParams};
use crate::router::{lemma_bound_complete, PatternModel, RoutePattern};
use crate::scan::{first_index, lemma_first_index, lemma_first_index_is};
use vstd::prelude::*;

verus! {

/// A pattern together with the handler that serves what the pattern accepts.
pub struct Route {
    pub pattern: RoutePattern,
    pub handler: Box<dyn RouteHandler>,
}

/// The routes of a server. A route keeps the place at which it was
/// registered: routes are added at the end and never removed or changed.
pub struct RouteRegistry {
    routes: Vec<Route>,
}

impl View for RouteRegistry {
    type V = Seq<PatternModel>;

    closed spec fn view(&self) -> Seq<PatternModel> {
        self.routes@.map_values(|r: Route| r.pattern@)
    }
}

/// What the dispatcher finds for a request, seen as plain values.
pub ghost enum Outcome {
    /// The route at `index` serves the request, with these parameters.
    Matched { index: int, params: Map<Seq<char>, Seq<char>> },
    /// Some route's matcher accepts the path, but none with the method.
    MethodNotAllowed,
    /// No route's matcher accepts the path.
    NotFound,
}

/// What the dispatcher finds for a request.
pub enum MatchOutcome {
    /// The route at this index serves the request, with these parameters.
    Matched(usize, PathParams),
    /// Some route's matcher accepts the path, but none with the method.
    MethodNotAllowed,
    /// No route's matcher accepts the path.
    NotFound,
}

impl View for MatchOutcome {
    type V = Outcome;

    open spec fn view(&self) -> Outcome {
        match self {
            MatchOutcome::Matched(index, params) => Outcome::Matched {
                index: *index as int,
                params: params@,
            },
            MatchOutcome::MethodNotAllowed => Outcome::MethodNotAllowed,
            MatchOutcome::NotFound => Outcome::NotFound,
        }
    }
}

/// The test whether a pattern accepts a request for `path` with `method`.
pub open spec fn accepting(method: Method, path: Seq<char>) -> spec_fn(PatternModel) -> bool {
    |p: PatternModel| p.accepts(method, path)
}

/// Whether the matcher of some route accepts the path.
pub open spec fn path_known(routes: Seq<PatternModel>, path: Seq<char>) -> bool {
    exists|i: int| 0 <= i < routes.len() && (#[trigger] routes[i]).path_matches(path)
}

/// The outcome of dispatching a request over the routes: the first route, in
/// the order of registration, that accepts method and path; failing that,
/// whether any matcher accepts the path at all.
pub open spec fn outcome(routes: Seq<PatternModel>, method: Method, path: Seq<char>) -> Outcome {
    let i = first_index(routes, accepting(method, path));
    if i < routes.len() {
        Outcome::Matched { index: i, params: routes[i].params(path) }
    } else if path_known(routes, path) {
        Outcome::MethodNotAllowed
    } else {
        Outcome::NotFound
    }
}

impl RouteRegistry {
    /// The route at `index`.
    pub closed spec fn route_at(&self, index: int) -> Route {
        self.routes@[index]
    }

    /// Whether `self` is `before` with one more route at the end: the routes
    /// of `before` keep their places.
    pub open spec fn extends(&self, before: &RouteRegistry) -> bool {
        &&& self@.len() == before@.len() + 1
        &&& self@.drop_last() == before@
        &&& forall|i: int| 0 <= i < before@.len() ==> self.route_at(i) == before.route_at(i)
    }

    /// The view of a registry holds the patterns of its routes, place by
    /// place.
    pub proof fn lemma_view_holds_patterns(&self)
        ensures
            forall|i: int|
                0 <= i < self@.len() ==> self@[i] == (#[trigger] self.route_at(i)).pattern@,
    {
    }

    /// A registry without routes.
    pub fn new() -> (r: RouteRegistry)
        ensures
            r@ == Seq::<PatternModel>::empty(),
    {
        let r = RouteRegistry { routes: Vec::new() };
        assert(r@ =~= Seq::<PatternModel>::empty());
        r
    }

    /// Adds a route behind those that are there.
    pub fn register(&mut self, route: Route)
        ensures
            final(self)@ == old(self)@.push(route.pattern@),
            final(self).extends(old(self)),
            final(self).route_at(old(self)@.len() as int) == route,
    {
        self.routes.push(route);
        assert(self@ =~= old(self)@.push(route.pattern@));
        assert(self@.drop_last() =~= old(self)@);
    }

    /// The number of routes.
    pub fn len(&self) -> (n: usize)
        ensures
            n == self@.len(),
    {
        self.routes.len()
    }

    /// The pattern of the route at `index`.
    pub fn pattern(&self, index: usize) -> (p: &RoutePattern)
        requires
            index < self@.len(),
        ensures
            *p == self.route_at(index as int).pattern,
            p@ == self@[index as int],
    {
        &self.routes[index].pattern
    }

    /// The handler of the route at `index`.
    pub fn handler(&self, index: usize) -> (h: &Box<dyn RouteHandler>)
        requires
            index < self@.len(),
        ensures
            *h == self.route_at(index as int).handler,
    {
        &self.routes[index].handler
    }

    /// Finds the route that serves a request for `path` with `method`.
    pub fn dispatch(&self, method: &Method, path: &str) -> (r: MatchOutcome)
        ensures
            r@ == outcome(self@, *method, path@),
    {
        let mut i: usize = 0;
        while i < self.routes.len()
            invariant
                i <= self.routes.len(),
                forall|j: int| 0 <= j < i ==> !(#[trigger] self@[j]).accepts(*method, path@),
            decreases self.routes.len() - i,
        {
            match self.routes[i].pattern.matches(path, method) {
                Some(params) => {
                    proof {
                        lemma_first_index_is(self@, accepting(*method, path@), i as int);
                    }
                    return MatchOutcome::Matched(i, params);
                },
                None => {},
            }
            i += 1;
        }
        proof {
            lemma_first_index_is(self@, accepting(*method, path@), self@.len() as int);
        }
        let mut k: usize = 0;
        while k < self.routes.len()
            invariant
                k <= self.routes.len(),
                first_index(self@, accepting(*method, path@)) == self@.len(),
                forall|j: int| 0 <= j < k ==> !(#[trigger] self@[j]).path_matches(path@),
            decreases self.routes.len() - k,
        {
            if self.routes[k].pattern.regex.is_match(path) {
                assert(self@[k as int].path_matches(path@));
                return MatchOutcome::MethodNotAllowed;
            }
            k += 1;
        }
        MatchOutcome::NotFound
    }
}

/// Registers a handler under the pattern that it reports. The routes that
/// were there keep their places.
pub fn register_route(registry: &mut RouteRegistry, route: Box<dyn RouteHandler>)
    ensures
        final(registry).extends(old(registry)),
{
    let pattern = route.path_pattern().clone();
    registry.register(Route { pattern, handler: route });
}

/// A path that no matcher accepts is not found, whatever the method, and only
/// such a path is.
pub proof fn lemma_not_found(routes: Seq<PatternModel>, method: Method, path: Seq<char>)
    ensures
        outcome(routes, method, path) is NotFound <==> forall|i: int|
            0 <= i < routes.len() ==> !(#[trigger] routes[i]).path_matches(path),
{
    lemma_first_index(routes, accepting(method, path));
}

/// A path that some matcher accepts, but no route with the method of the
/// request, meets "method not allowed", and only such a request does.
pub proof fn lemma_method_not_allowed(routes: Seq<PatternModel>, method: Method, path: Seq<char>)
    ensures
        outcome(routes, method, path) is MethodNotAllowed <==> {
            &&& exists|i: int| 0 <= i < routes.len() && (#[trigger] routes[i]).path_matches(path)
            &&& forall|i: int|
                0 <= i < routes.len() ==> !(#[trigger] routes[i]).accepts(method, path)
        },
{
    lemma_first_index(routes, accepting(method, path));
    let i = first_index(routes, accepting(method, path));
    if i < routes.len() {
        assert(routes[i].accepts(method, path));
    }
}

/// A request is matched exactly where some route accepts it, and then by the
/// earliest such route in the order of registration, with the parameters that
/// this route takes from the path.
pub proof fn lemma_first_wins(routes: Seq<PatternModel>, method: Method, path: Seq<char>)
    ensures
        outcome(routes, method, path) is Matched <==> exists|i: int|
            0 <= i < routes.len() && (#[trigger] routes[i]).accepts(method, path),
        outcome(routes, method, path) matches Outcome::Matched { index, params } ==> {
            &&& 0 <= index < routes.len()
            &&& routes[index].accepts(method, path)
            &&& forall|j: int| 0 <= j < index ==> !(#[trigger] routes[j]).accepts(method, path)
            &&& params == routes[index].params(path)
        },
{
    lemma_first_index(routes, accepting(method, path));
    let i = first_index(routes, accepting(method, path));
    if i < routes.len() {
        assert(routes[i].accepts(method, path));
    }
}

/// Where a request is matched by a route whose parameter names are distinct,
/// and the engine found a group for each of them in the path, the parameters
/// are exactly those names, each bound to the text that its group captured.
pub proof fn lemma_matched_params(routes: Seq<PatternModel>, method: Method, path: Seq<char>)
    requires
        outcome(routes, method, path) is Matched,
        ({
            let route = routes[outcome(routes, method, path)->index];
            &&& route.names.no_duplicates()
            &&& forall|i: int|
                0 <= i < route.names.len() ==> regex_groups(route.regex, path).contains_key(
                    #[trigger] route.names[i],
                )
        }),
    ensures
        ({
            let route = routes[outcome(routes, method, path)->index];
            let params = outcome(routes, method, path)->params;
            &&& params.dom() == route.names.to_set()
            &&& params.len() == route.names.len()
            &&& forall|i: int|
                0 <= i < route.names.len() ==> params[#[trigger] route.names[i]] == regex_groups(
                    route.regex,
                    path,
                )[route.names[i]]
        }),
{
    let route = routes[outcome(routes, method, path)->index];
    lemma_bound_complete(route.names, regex_groups(route.regex, path));
}

/// Of two routes that both accept a request, the one registered earlier
/// serves it.
pub proof fn lemma_earlier_wins(
    routes: Seq<PatternModel>,
    earlier: int,
    later: int,
    method: Method,
    path: Seq<char>,
)
    requires
        0 <= earlier < later < routes.len(),
        routes[earlier].accepts(method, path),
        routes[later].accepts(method, path),
    ensures
        outcome(routes, method, path) matches Outcome::Matched { index, .. } && index <= earlier,
{
    lemma_first_wins(routes, method, path);
}

/// The route that serves a request and the parameters that it gets, or the
/// kind of failure: the outcome without the place of the route.
pub open spec fn served(routes: Seq<PatternModel>, method: Method, path: Seq<char>) -> Option<
    (PatternModel, Map<Seq<char>, Seq<char>>),
> {
    match outcome(routes, method, path) {
        Outcome::Matched { index, params } => Some((routes[index], params)),
        _ => None,
    }
}

/// Two routes bound to different methods never compete: whichever of them is
/// registered first, a request is served by the same route with the same
/// parameters, or fails in the same way.
pub proof fn lemma_order_free_for_distinct_methods(
    a: PatternModel,
    b: PatternModel,
    method: Method,
    path: Seq<char>,
)
    requires
        a.method != b.method,
    ensures
        served(seq![a, b], method, path) == served(seq![b, a], method, path),
        outcome(seq![a, b], method, path) is NotFound <==> outcome(seq![b, a], method, path)
            is NotFound,
        outcome(seq![a, b], method, path) is MethodNotAllowed <==> outcome(
            seq![b, a],
            method,
            path,
        ) is MethodNotAllowed,
{
    let ab = seq![a, b];
    let ba = seq![b, a];
    lemma_first_wins(ab, method, path);
    lemma_first_wins(ba, method, path);
    lemma_not_found(ab, method, path);
    lemma_not_found(ba, method, path);
    lemma_method_not_allowed(ab, method, path);
    lemma_method_not_allowed(ba, method, path);
    assert(ab[0] == a && ab[1] == b && ba[0] == b && ba[1] == a);
    if a.accepts(method, path) {
        assert(!b.accepts(method, path));
        assert(ab[0].accepts(method, path));
        assert(ba[1].accepts(method, path));
    } else if b.accepts(method, path) {
        assert(ab[1].accepts(method, path));
        assert(ba[0].accepts(method, path));
    }
    if a.path_matches(path) {
        assert(ab[0].path_matches(path));
        assert(ba[1].path_matches(path));
    }
    if b.path_matches(path) {
        assert(ab[1].path_matches(path));
        assert(ba[0].path_matches(path));
    }
}

} // verus!
