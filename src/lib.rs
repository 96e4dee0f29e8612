//! Response shaping and request normalization for an HTTP API: hardening
//! and CORS headers on every response, explicit cache directives, canonical
//! keys in JSON request bodies, and the decisions of a bounded retry.
pub mod assets;
pub mod date;
pub mod http;
pub mod json;
pub mod middleware;
pub mod retry;
pub mod size;
pub mod text;
pub mod util;
