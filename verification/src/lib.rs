//! Verified core of a self-hosted TCP/HTTP tunnel: the control protocol's
//! message types, the client and server handshake decisions, per-session
//! stream tables, the UUID endpoint registry and the HTTP proxy's request and
//! response framing.
pub mod proto;

pub mod client_config;
pub mod server_config;
pub mod http_registry;
pub mod streams;
pub mod state;
pub mod session;
pub mod handshake;
pub mod http_proxy;
pub mod client;
pub mod bytes_base64;
