//! A small HTTPS test server's verified core: the fixed transit-departure
//! data it serves, a JSON encoder for that data, decimal parsing of the
//! stop-id path parameter, and the request-to-response decision.
//!
//! The network side (TLS, HTTP, logging) lives outside the library and
//! only forwards requests to [`router::respond`].

pub mod json;
pub mod model;
pub mod parse;
pub mod router;

use vstd::prelude::*;

verus! {

/// The body served for `GET /hello`.
pub fn hello() -> (r: &'static str)
    ensures
        r@ == "Hello!"@,
{
    "Hello!"
}

} // verus!
