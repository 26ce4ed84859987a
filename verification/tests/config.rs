use rustunnel::client_config::{default_protocol, ClientConfig, TunnelEntry};
use rustunnel::proto::Protocol;
use rustunnel::server_config::{default_control_port, default_max_streams};

fn entry(name: &str, remote_port: Option<u16>, local_port: u16, protocol: Protocol) -> TunnelEntry {
    TunnelEntry { name: name.to_string(), remote_port, local_port, protocol }
}

#[test]
fn tunnel_specs_follow_entries_in_order() {
    let cfg = ClientConfig {
        ws_url: "wss://tunnel.example.com/tunnel".to_string(),
        auth_token: "secret".to_string(),
        tunnel: vec![
            entry("minecraft", Some(25565), 25565, Protocol::Tcp),
            entry("api", None, 3000, Protocol::Http),
            entry("dns", Some(5353), 53, Protocol::Udp),
        ],
    };
    let specs = cfg.tunnel_specs();
    assert_eq!(specs.len(), 3);
    assert_eq!(specs[0].name, "minecraft");
    assert_eq!(specs[0].remote_port, Some(25565));
    assert_eq!(specs[0].local_port, 25565);
    assert_eq!(specs[0].protocol, Protocol::Tcp);
    assert_eq!(specs[1].name, "api");
    assert_eq!(specs[1].remote_port, None);
    assert_eq!(specs[1].local_port, 3000);
    assert_eq!(specs[1].protocol, Protocol::Http);
    assert_eq!(specs[2].name, "dns");
    assert_eq!(specs[2].protocol, Protocol::Udp);
}

#[test]
fn tunnel_specs_of_no_entries_is_empty() {
    let cfg = ClientConfig { ws_url: String::new(), auth_token: String::new(), tunnel: Vec::new() };
    assert!(cfg.tunnel_specs().is_empty());
}

#[test]
fn defaults() {
    assert_eq!(default_protocol(), Protocol::Tcp);
    assert_eq!(default_control_port(), 7000);
    assert_eq!(default_max_streams(), 1024);
}
