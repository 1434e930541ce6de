//! The HTTP surface of the radio: where it listens and what it routes.
use vstd::prelude::*;
use crate::config::Config;
use crate::text::{bind_address, spec_bind_address};

pub mod model;
pub mod routes;

verus! {

/// Path of the endpoint that reports liveness.
pub const HEALTH_PATH: &'static str = "/health";

/// Path of the query endpoint: the interactive console on GET, queries on POST.
pub const GRAPHQL_PATH: &'static str = "/api/v1/graphql";

/// The address at which the query API is served, or `None` where no port is
/// configured for it and nothing is served.
pub fn run_server(config: &Config) -> (r: Option<String>)
    ensures
        match config.server_port {
            Some(port) => r is Some && r->Some_0@ == spec_bind_address(config.server_host@, port),
            None => r is None,
        },
{
    match config.server_port {
        Some(port) => Some(bind_address(config.server_host.as_str(), port)),
        None => None,
    }
}

} // verus!
