//! Request-dispatch core of an embeddable HTTP server.
//!
//! The library models the subsystem that turns wire requests into an
//! internal request, matches them against registered routes, funnels
//! matched work through a serialized processing stage with backpressure
//! and FIFO ordering, runs middleware and per-status catchers, and
//! produces the response that goes back on the wire.

pub mod catcher;
pub mod cors;
pub mod dispatch;
pub mod headers;
pub mod into_response;
pub mod middleware;
pub mod num;
pub mod processor;
pub mod request;
pub mod response;
pub mod routing;
pub mod server;
pub mod session;
pub mod status;
pub mod strutil;


