//! Networking logic: routing, the per-connection state machine, poll
//! interests, and the server value.

pub mod connection;
pub mod events;
pub mod router;
pub mod server;

pub use router::{find_route, route_request};
pub use server::Server;
