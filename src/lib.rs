//! A small request router and dispatcher: route patterns with named
//! parameters, most specific match, middleware stages that may reject,
//! extractors that read JSON or form bodies, responders, and a directory of
//! static files for paths that no route matches.

pub mod dispatch;
pub mod extract;
pub mod form;
pub mod handler;
pub mod http;
pub mod json;
pub mod middleware;
pub mod path;
pub mod pattern;
pub mod respond;
pub mod router;
pub mod servers;
pub mod static_files;
