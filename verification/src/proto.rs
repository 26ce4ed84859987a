//! Control protocol: the messages exchanged between client and server.
use vstd::prelude::*;

verus! {

/// Maximum allowed frame payload (16 MiB).
pub const MAX_FRAME_SIZE: u32 = 16777216u32;

/// Transport a tunnel forwards.
#[derive(Debug, Clone, Copy, PartialEq, Eq, Structural)]
pub enum Protocol {
    Tcp,
    Udp,
    /// The server assigns a UUID URL instead of a public port.
    Http,
}

/// A tunnel the client asks the server to open.
#[derive(Debug, Clone)]
pub struct TunnelSpec {
    /// Human-readable label (e.g. "minecraft").
    pub name: String,
    /// Port opened on the VPS for public traffic (absent for HTTP tunnels).
    pub remote_port: Option<u16>,
    /// Port on the local machine to forward to.
    pub local_port: u16,
    pub protocol: Protocol,
}

/// What the server assigned to one requested tunnel.
#[derive(Debug, Clone)]
pub struct TunnelAssignment {
    /// Index of the tunnel in the client's `Hello`.
    pub tunnel_id: u8,
    /// Public port, for TCP/UDP tunnels.
    pub remote_port: Option<u16>,
    /// Public URL, for HTTP tunnels.
    pub http_url: Option<String>,
}

/// One message on the control connection.
#[derive(Debug, Clone)]
pub enum ControlMsg {
    /// First message the client sends after connecting.
    Hello { auth_token: String, tunnels: Vec<TunnelSpec> },
    /// Flow-control acknowledgement: client has consumed `bytes` on `stream_id`.
    DataAck { stream_id: u32, bytes: u64 },
    /// Sent after a successful Hello.
    HelloOk { assignments: Vec<TunnelAssignment> },
    /// A new public connection arrived on `tunnel_id`.
    NewConn { stream_id: u32, tunnel_id: u8 },
    /// Raw payload for a specific stream.
    Data { stream_id: u32, payload: Vec<u8> },
    /// One side signals EOF / error for a stream.
    CloseStream { stream_id: u32 },
    Ping,
    Pong,
}

} // verus!
