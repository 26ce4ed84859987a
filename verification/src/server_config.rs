//! Server configuration.
use vstd::prelude::*;

verus! {

/// The server's configuration file.
#[derive(Debug)]
pub struct ServerConfig {
    /// Port the server listens on for client control connections.
    pub control_port: u16,
    /// Shared secret used to authenticate clients.
    pub auth_token: String,
    /// Maximum simultaneous streams per client (reserved for future enforcement).
    pub max_streams: u32,
    /// Port of the HTTP proxy serving UUID-based tunnel endpoints.
    pub http_proxy_port: u16,
    /// Public base URL that HTTP tunnel URLs are built on.
    pub http_base_url: String,
    /// Seconds an HTTP endpoint may stay unused before it is removed.
    pub http_idle_timeout_secs: u64,
}

/// Control port used when the configuration names none.
pub fn default_control_port() -> (p: u16)
    ensures
        p == 7000,
{
    7000
}

/// Stream limit used when the configuration names none.
pub fn default_max_streams() -> (n: u32)
    ensures
        n == 1024,
{
    1024
}

} // verus!
