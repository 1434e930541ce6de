//! What the plain routes answer.
use vstd::prelude::*;

verus! {

/// The body of the liveness answer.
#[derive(Clone, Copy, Debug, PartialEq, Eq, Structural)]
pub struct Health {
    pub healthy: bool,
}

/// The liveness answer: status 200, healthy.
pub fn health() -> (r: (u16, Health))
    ensures
        r == (200u16, Health { healthy: true }),
{
    (200, Health { healthy: true })
}

/// Where the interactive console sends its queries and its subscriptions.
pub fn graphql_playground() -> (r: (&'static str, &'static str))
    ensures
        r.0@ == "/"@,
        r.1@ == "/ws"@,
{
    ("/", "/ws")
}

} // verus!
