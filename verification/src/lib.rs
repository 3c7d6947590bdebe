//! A small HTTP server toolkit: path templates compiled to matchers, a
//! registry of routes, and the dispatch of a request to the route that
//! serves it.

pub mod duck_web;
pub mod engine;
pub mod handler;
pub mod http;
pub mod naming;
pub mod prelude;
pub mod registry;
pub mod router;
pub mod scan;
pub mod text;

pub use duck_web::DuckWeb;
pub use handler::RouteHandler;
pub use http::{Request, Response};
