//! Client configuration and the tunnel list it requests from the server.
use vstd::prelude::*;
use crate::proto::{Protocol, TunnelSpec};

verus! {

/// One `[[tunnel]]` table of the client configuration.
#[derive(Debug)]
pub struct TunnelEntry {
    pub name: String,
    /// Required for tcp/udp tunnels. Omitted for http tunnels (server assigns a UUID endpoint).
    pub remote_port: Option<u16>,
    pub local_port: u16,
    pub protocol: Protocol,
}

/// The client's configuration file.
#[derive(Debug)]
pub struct ClientConfig {
    /// Full WebSocket URL, e.g. "wss://tunnel.example.com/tunnel".
    pub ws_url: String,
    pub auth_token: String,
    pub tunnel: Vec<TunnelEntry>,
}

/// The tunnel spec that a configured entry requests.
pub open spec fn spec_of_entry(e: TunnelEntry) -> TunnelSpec {
    TunnelSpec {
        name: e.name,
        remote_port: e.remote_port,
        local_port: e.local_port,
        protocol: e.protocol,
    }
}

/// Protocol of an entry that names none.
pub fn default_protocol() -> (p: Protocol)
    ensures
        p == Protocol::Tcp,
{
    Protocol::Tcp
}

impl ClientConfig {
    /// The tunnels to request, in configuration order, one per entry.
    pub fn tunnel_specs(&self) -> (specs: Vec<TunnelSpec>)
        ensures
            specs@.len() == self.tunnel@.len(),
            forall|i: int|
                0 <= i < specs@.len() ==> #[trigger] specs@[i] == spec_of_entry(self.tunnel@[i]),
            forall|i: int|
                0 <= i < specs@.len() ==> {
                    &&& (#[trigger] specs@[i]).name@ == self.tunnel@[i].name@
                    &&& specs@[i].remote_port == self.tunnel@[i].remote_port
                    &&& specs@[i].local_port == self.tunnel@[i].local_port
                    &&& specs@[i].protocol == self.tunnel@[i].protocol
                },
    {
        let mut specs: Vec<TunnelSpec> = Vec::new();
        let n = self.tunnel.len();
        for i in 0..n
            invariant
                n == self.tunnel@.len(),
                specs@.len() == i,
                forall|j: int| 0 <= j < i ==> #[trigger] specs@[j] == spec_of_entry(self.tunnel@[j]),
        {
            let t = &self.tunnel[i];
            specs.push(
                TunnelSpec {
                    name: t.name.clone(),
                    remote_port: t.remote_port,
                    local_port: t.local_port,
                    protocol: t.protocol,
                },
            );
        }
        specs
    }
}

/// A requested tunnel is its configured entry as written: the same name, the same
/// public port (whatever the protocol), the same local port and the same protocol.
pub proof fn law_spec_copies_entry(e: TunnelEntry)
    ensures
        spec_of_entry(e).name == e.name,
        spec_of_entry(e).remote_port == e.remote_port,
        spec_of_entry(e).local_port == e.local_port,
        spec_of_entry(e).protocol == e.protocol,
{
}

} // verus!
