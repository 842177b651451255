//! HTTP request and response values.

pub mod request;
pub mod round_trip;
pub mod response;

pub use request::HttpRequest;
pub use response::HttpResponse;

use vstd::prelude::*;

verus! {

/// Request methods the server distinguishes.
#[derive(Debug, Clone, PartialEq, Eq, Structural)]
pub enum HttpMethod {
    GET,
    POST,
    PUT,
    DELETE,
    HEAD,
}

} // verus!
