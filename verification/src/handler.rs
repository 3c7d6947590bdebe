//! What a route does with a request.

use crate::http::{Request, Response};
use crate::router::RoutePattern;
use vstd::prelude::*;

verus! {

/// A handler of requests, bound to the pattern of the paths that it serves.
/// The pattern is read once, when the handler is registered.
pub trait RouteHandler: Send + Sync + 'static {
    /// The pattern of the paths that this handler serves.
    fn path_pattern(&self) -> &RoutePattern;

    /// Answers one request.
    fn handle(&self, req: Request) -> Response;
}

} // verus!
