//! A small verified HTTP server core: route dispatch, path safety for the
//! static-file and upload handlers, request-log records, body size limits,
//! response header injection, and startup configuration.
pub mod ascii;
pub mod body_limit;
pub mod bytes;
pub mod clock;
pub mod config;
pub mod handlers;
pub mod headers;
pub mod http;
pub mod log_record;
pub mod middleware;
pub mod path_safety;
pub mod router;

