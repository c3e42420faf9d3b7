//! Built-in launcher configuration.

use vstd::prelude::*;

verus! {

/// Identifier of the classic launcher style.
pub const CLASSIC_STYLE: u32 = 0;

/// Identifier of the modern launcher style.
pub const MODERN_STYLE: u32 = 1;

/// Where the list of known servers is published.
pub const DEFAULT_SERVERLIST_URL: &'static str =
    "https://raw.githubusercontent.com/rockisch/mhf-launcher/master/serverlist.json";

/// A game server that the launcher can connect to.
#[derive(Debug, Clone, PartialEq, Eq)]
pub struct Endpoint {
    pub name: String,
    pub host: String,
    pub is_remote: bool,
}

impl Default for Endpoint {
    fn default() -> (endpoint: Endpoint)
        ensures
            endpoint.name@ == Seq::<char>::empty(),
            endpoint.host@ == Seq::<char>::empty(),
            !endpoint.is_remote,
    {
        Endpoint { name: String::new(), host: String::new(), is_remote: false }
    }
}

/// The endpoints that are always offered, whatever the server list holds:
/// a single remote endpoint named `Localhost` on host `localhost`.
pub fn get_fixed_endpoints() -> (endpoints: Vec<Endpoint>)
    ensures
        endpoints@.len() == 1,
        endpoints@[0].name@ == "Localhost"@,
        endpoints@[0].host@ == "localhost"@,
        endpoints@[0].is_remote,
{
    let mut endpoints: Vec<Endpoint> = Vec::new();
    endpoints.push(
        Endpoint {
            name: "Localhost".to_owned(),
            host: "localhost".to_owned(),
            is_remote: true,
        },
    );
    endpoints
}

} // verus!
