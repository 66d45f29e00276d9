use vstd::prelude::*;

verus! {

/// One upstream server as configured: an address and an optional weight.
/// A server without a configured weight gets the default weight 1.
#[derive(Clone)]
pub struct ServerConfig {
    pub addr: String,
    pub weight: Option<u16>,
}

/// The configured servers of one backend.
pub struct BackendPool {
    pub servers: Vec<ServerConfig>,
}

/// One frontend: the address it listens on and the name of the backend
/// its connections are forwarded to.
pub struct FrontendConfig {
    pub listen_addr: String,
    pub backend: String,
}

/// A named frontend record of a configuration snapshot.
pub struct FrontendEntry {
    pub name: String,
    pub config: FrontendConfig,
}

/// A named backend record of a configuration snapshot.
pub struct BackendEntry {
    pub name: String,
    pub pool: BackendPool,
}

/// A full configuration snapshot: the frontends and the backends by name.
pub struct BaseConfig {
    pub frontends: Vec<FrontendEntry>,
    pub backends: Vec<BackendEntry>,
}

/// A configuration together with the file it was loaded from.
pub struct Config {
    pub filename: String,
    pub base: BaseConfig,
}

/// The weight that counts for a server: the configured one, or 1 where
/// none was configured.
pub open spec fn spec_weight_or_default(w: Option<u16>) -> u16 {
    match w {
        Some(x) => x,
        None => 1u16,
    }
}

pub fn weight_or_default(w: &Option<u16>) -> (r: u16)
    ensures
        r == spec_weight_or_default(*w),
{
    match w {
        Some(x) => *x,
        None => 1,
    }
}

} // verus!
