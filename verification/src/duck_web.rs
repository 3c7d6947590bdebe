//! The settings of a server, and the way from the text of a request to the
//! text of its response.

use crate::http::{envelope, Method, PathParams, QueryParams, Request, Response};
use crate::registry::{
    lemma_first_wins, lemma_method_not_allowed, lemma_not_found, outcome, MatchOutcome, Outcome,
    RouteRegistry,
};
use crate::router::PatternModel;
use crate::text::{
    after, before, cut_once, decode_lossy, from_chars, lossy_text, split_words, to_chars,
    uppercase, words,
};
use vstd::hash_map::StringHashMap;
use vstd::prelude::*;

verus! {

/// The settings of a server: the address that it listens on.
pub struct DuckWeb {
    addr: String,
}

impl DuckWeb {
    /// The address that the server listens on.
    pub closed spec fn address(&self) -> Seq<char> {
        self.addr@
    }

    /// A server on port 7878 of the local host.
    pub fn new() -> (w: DuckWeb)
        ensures
            w.address() == "127.0.0.1:7878"@,
    {
        DuckWeb { addr: "127.0.0.1:7878".to_owned() }
    }

    /// The same server on another address.
    pub fn bind(self, addr: String) -> (w: DuckWeb)
        ensures
            w.address() == addr@,
    {
        DuckWeb { addr }
    }

    /// The address that the server listens on.
    pub fn addr(&self) -> (a: &str)
        ensures
            a@ == self.address(),
    {
        self.addr.as_str()
    }
}

/// The tokens of the first line of a request: the words before the first
/// line feed.
pub open spec fn request_tokens(text: Seq<char>) -> Seq<Seq<char>> {
    words(before(text, '\n'))
}

/// Whether a request names a method and a target.
pub open spec fn has_request_line(text: Seq<char>) -> bool {
    request_tokens(text).len() >= 2
}

/// The method that a request names. The first token is put in upper case and
/// then read as a method.
pub open spec fn request_method(text: Seq<char>) -> Method {
    Method::of_token(uppercase(request_tokens(text)[0]))
}

/// The path that a request names: its target up to the first `?`.
pub open spec fn request_path(text: Seq<char>) -> Seq<char> {
    before(request_tokens(text)[1], '?')
}

/// The query string of a request: what follows the first `?` of its target.
pub open spec fn request_query(text: Seq<char>) -> Seq<char> {
    after(request_tokens(text)[1], '?')
}

/// What the first line of a request says.
pub struct RequestLine {
    pub method: Method,
    pub path: String,
    pub query: String,
}

/// Reads the first line of a request. The result is `None` where the line has
/// fewer than two tokens.
pub fn parse_request_line(text: &str) -> (r: Option<RequestLine>)
    ensures
        r is Some == has_request_line(text@),
        r is Some ==> {
            &&& r->Some_0.method == request_method(text@)
            &&& r->Some_0.path@ == request_path(text@)
            &&& r->Some_0.query@ == request_query(text@)
        },
{
    let chars = to_chars(text);
    let (line, _) = cut_once(&chars, '\n');
    let tokens = split_words(&line);
    if tokens.len() < 2 {
        return None;
    }
    let token = from_chars(&tokens[0]);
    let upper = token.to_uppercase();
    let method = Method::from(upper.as_str());
    let (path, query) = cut_once(&tokens[1], '?');
    Some(RequestLine { method, path: from_chars(&path), query: from_chars(&query) })
}

/// What is to be done for a request.
pub enum Step {
    /// Hand the request to the handler of the route at this index, and send
    /// what it answers.
    Call(usize, Request),
    /// Send this response.
    Reply(Response),
}

/// The body of the responses that the server gives by itself.
pub open spec fn fallback_body() -> Seq<char> {
    "Not Found"@
}

/// Whether a request is the one that a handler gets for a request line and
/// the parameters of its path: it has no headers, no body and no query
/// parameters.
pub open spec fn is_request_for(
    request: Request,
    method: Method,
    path: Seq<char>,
    params: Map<Seq<char>, Seq<char>>,
) -> bool {
    &&& request.method == method
    &&& request.path@ == path
    &&& request.path_params@ == params
    &&& request.headers@ == Map::<Seq<char>, String>::empty()
    &&& request.body@ == Seq::<u8>::empty()
    &&& request.query_params@ == Map::<Seq<char>, Seq<Seq<char>>>::empty()
}

/// Whether a response is the one that the server gives by itself with the
/// given status.
pub open spec fn is_fallback(response: Response, status: u16) -> bool {
    &&& response.status == status
    &&& response.body@ == fallback_body()
    &&& response.headers@ == Map::<Seq<char>, String>::empty()
}

/// Whether a step is the right one for the outcome of dispatching a request:
/// the call of the matched route's handler with the request made from the
/// request line, or the reply 405 or 404.
pub open spec fn step_for(step: Step, found: Outcome, method: Method, path: Seq<char>) -> bool {
    match found {
        Outcome::Matched { index, params } => step matches Step::Call(route, request)
            && route == index && is_request_for(request, method, path, params),
        Outcome::MethodNotAllowed => step matches Step::Reply(response) && is_fallback(
            response,
            405,
        ),
        Outcome::NotFound => step matches Step::Reply(response) && is_fallback(response, 404),
    }
}

/// The request that a handler gets.
pub fn build_request(line: RequestLine, params: PathParams) -> (request: Request)
    ensures
        is_request_for(request, line.method, line.path@, params@),
{
    Request {
        path: line.path,
        method: line.method,
        headers: StringHashMap::new(),
        body: Vec::new(),
        path_params: params,
        query_params: QueryParams::new(),
    }
}

/// The response that the server gives by itself for a dispatch that matched
/// no route.
pub fn fallback(status: u16) -> (response: Response)
    ensures
        is_fallback(response, status),
{
    Response::new(status, "Not Found".to_owned())
}

/// Decides what is to be done for the text of a request: nothing where it has
/// no request line, and else what the dispatch over the routes asks for.
pub fn next_step(registry: &RouteRegistry, text: &str) -> (r: Option<Step>)
    ensures
        r is Some == has_request_line(text@),
        r is Some ==> step_for(
            r->Some_0,
            outcome(registry@, request_method(text@), request_path(text@)),
            request_method(text@),
            request_path(text@),
        ),
        r matches Some(Step::Call(route, _)) ==> route < registry@.len(),
{
    match parse_request_line(text) {
        None => None,
        Some(line) => {
            proof {
                lemma_first_wins(registry@, line.method, line.path@);
            }
            match registry.dispatch(&line.method, line.path.as_str()) {
                MatchOutcome::Matched(route, params) => Some(
                    Step::Call(route, build_request(line, params)),
                ),
                MatchOutcome::MethodNotAllowed => Some(Step::Reply(fallback(405))),
                MatchOutcome::NotFound => Some(Step::Reply(fallback(404))),
            }
        },
    }
}

/// Whether `reply` is what the server sends for the text of a request: nothing
/// where the text has no request line; the server's own response with status
/// 404 or 405 where the dispatch matches no route; and else the text of some
/// response, which is for the handler of the matched route to choose.
pub open spec fn is_reply_to(
    reply: Option<String>,
    routes: Seq<PatternModel>,
    text: Seq<char>,
) -> bool {
    &&& reply is Some == has_request_line(text)
    &&& reply is Some ==> match outcome(routes, request_method(text), request_path(text)) {
        Outcome::Matched { .. } => exists|response: Response| reply->Some_0@ == response.wire(),
        Outcome::MethodNotAllowed => reply->Some_0@ == envelope(405, fallback_body()),
        Outcome::NotFound => reply->Some_0@ == envelope(404, fallback_body()),
    }
}

/// A request for a path that no matcher accepts is answered with status 404.
pub proof fn lemma_unknown_path_is_404(
    reply: Option<String>,
    routes: Seq<PatternModel>,
    text: Seq<char>,
)
    requires
        is_reply_to(reply, routes, text),
        has_request_line(text),
        forall|i: int|
            0 <= i < routes.len() ==> !(#[trigger] routes[i]).path_matches(request_path(text)),
    ensures
        reply is Some,
        reply->Some_0@ == envelope(404, fallback_body()),
{
    lemma_not_found(routes, request_method(text), request_path(text));
}

/// A request for a path that some matcher accepts, with a method that no
/// route of such a matcher is bound to, is answered with status 405.
pub proof fn lemma_other_method_is_405(
    reply: Option<String>,
    routes: Seq<PatternModel>,
    text: Seq<char>,
)
    requires
        is_reply_to(reply, routes, text),
        has_request_line(text),
        exists|i: int|
            0 <= i < routes.len() && (#[trigger] routes[i]).path_matches(request_path(text)),
        forall|i: int|
            0 <= i < routes.len() ==> !(#[trigger] routes[i]).accepts(
                request_method(text),
                request_path(text),
            ),
    ensures
        reply is Some,
        reply->Some_0@ == envelope(405, fallback_body()),
{
    lemma_method_not_allowed(routes, request_method(text), request_path(text));
}

/// Answers the text of a request with the text of the response. Where a route
/// matches, its handler is called with the request that `next_step` makes,
/// and the response is the one that the handler gives.
pub fn respond(registry: &RouteRegistry, text: &str) -> (r: Option<String>)
    ensures
        is_reply_to(r, registry@, text@),
{
    match next_step(registry, text) {
        None => None,
        Some(Step::Reply(response)) => Some(response.to_http()),
        Some(Step::Call(route, request)) => {
            let response = registry.handler(route).handle(request);
            Some(response.to_http())
        },
    }
}

/// Answers the bytes of a request, read as text, as `respond` answers the
/// text.
pub fn answer(registry: &RouteRegistry, request: &[u8]) -> (r: Option<String>)
    ensures
        is_reply_to(r, registry@, lossy_text(request@)),
{
    let text = decode_lossy(request);
    respond(registry, text.as_str())
}

} // verus!
