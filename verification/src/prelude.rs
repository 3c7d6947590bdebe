//! The names that a program with handlers needs.

pub use crate::duck_web::DuckWeb;
pub use crate::handler::RouteHandler;
pub use crate::http::{Method, Request, Response};
