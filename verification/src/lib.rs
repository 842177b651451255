//! Core of a single-threaded, event-driven HTTP/1.1 server.
//!
//! The library holds the verified logic: the incremental request parser,
//! the response builder and its wire serialization, the router with its
//! path sanitization, the upload / delete / CGI-output handlers, the
//! per-connection state machine, and the configuration parser.  All
//! socket, filesystem and subprocess work lives outside the library and
//! exchanges plain values (byte vectors, integers, booleans) with it.

pub mod config;
pub mod handlers;
pub mod http;
pub mod network;
pub mod tokens;
pub mod util;
