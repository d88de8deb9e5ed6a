//! A small HTTP/1.1 server core: request parsing, response framing, and the
//! decision logic of a worker pool and of an accept loop.

pub mod files;
pub mod handler;
pub mod http;
pub mod sequential;
pub mod server;
pub mod threads;
