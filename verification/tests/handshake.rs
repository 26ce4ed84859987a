use rustunnel::http_proxy::split_tunnel_path;
use rustunnel::http_registry::HttpRegistry;
use rustunnel::handshake::{
    assign_tunnels, assign_tunnels_fresh, client_handshake_step, public_listener_targets,
    server_handshake_step, HandshakeError, HandshakeStep, WsEvent,
};
use rustunnel::proto::{ControlMsg, Protocol, TunnelAssignment, TunnelSpec};

fn spec(name: &str, remote_port: Option<u16>, local_port: u16, protocol: Protocol) -> TunnelSpec {
    TunnelSpec { name: name.to_string(), remote_port, local_port, protocol }
}

fn sample() -> Vec<TunnelSpec> {
    vec![
        spec("minecraft", Some(25565), 25565, Protocol::Tcp),
        spec("api", None, 3000, Protocol::Http),
        spec("noport", None, 22, Protocol::Tcp),
        spec("web", None, 8080, Protocol::Http),
        spec("dns", Some(5353), 53, Protocol::Udp),
    ]
}

#[test]
fn hello_with_right_token_is_accepted() {
    let ev = WsEvent::Message(ControlMsg::Hello { auth_token: "tok".to_string(), tunnels: sample() });
    match server_handshake_step(&"tok".to_string(), ev) {
        HandshakeStep::Done(t) => assert_eq!(t.len(), 5),
        other => panic!("unexpected {:?}", other),
    }
}

#[test]
fn hello_with_wrong_token_is_rejected() {
    let ev = WsEvent::Message(ControlMsg::Hello { auth_token: "bad".to_string(), tunnels: sample() });
    assert!(matches!(
        server_handshake_step(&"tok".to_string(), ev),
        HandshakeStep::Fail(HandshakeError::AuthFailed)
    ));
}

#[test]
fn server_handshake_other_events() {
    let tok = "tok".to_string();
    assert!(matches!(
        server_handshake_step(&tok, WsEvent::Message(ControlMsg::Ping)),
        HandshakeStep::Fail(HandshakeError::UnexpectedMessage)
    ));
    assert!(matches!(
        server_handshake_step(&tok, WsEvent::Closed),
        HandshakeStep::Fail(HandshakeError::ClosedEarly)
    ));
    assert!(matches!(server_handshake_step(&tok, WsEvent::Other), HandshakeStep::Wait));
}

#[test]
fn client_handshake_steps() {
    let ok = WsEvent::Message(ControlMsg::HelloOk {
        assignments: vec![TunnelAssignment { tunnel_id: 0, remote_port: Some(1), http_url: None }],
    });
    match client_handshake_step(ok) {
        HandshakeStep::Done(a) => assert_eq!(a.len(), 1),
        other => panic!("unexpected {:?}", other),
    }
    assert!(matches!(
        client_handshake_step(WsEvent::Message(ControlMsg::Pong)),
        HandshakeStep::Fail(HandshakeError::UnexpectedMessage)
    ));
    assert!(matches!(client_handshake_step(WsEvent::Closed), HandshakeStep::Fail(HandshakeError::ClosedEarly)));
    assert!(matches!(client_handshake_step(WsEvent::Other), HandshakeStep::Wait));
}

#[test]
fn assignments_give_urls_and_ports() {
    let uuids = vec!["u-one".to_string(), "u-two".to_string()];
    let (a, entries) = assign_tunnels(&sample(), "https://t.example.com", &uuids);
    assert_eq!(a.len(), 5);
    for (i, x) in a.iter().enumerate() {
        assert_eq!(x.tunnel_id as usize, i);
    }
    assert_eq!(a[0].remote_port, Some(25565));
    assert_eq!(a[0].http_url, None);
    assert_eq!(a[1].remote_port, None);
    assert_eq!(a[1].http_url.as_deref(), Some("https://t.example.com/t/u-one"));
    assert_eq!(a[2].remote_port, None);
    assert_eq!(a[2].http_url, None);
    assert_eq!(a[3].http_url.as_deref(), Some("https://t.example.com/t/u-two"));
    assert_eq!(a[4].remote_port, Some(5353));
    assert_eq!(entries, vec![(1u8, "u-one".to_string()), (3u8, "u-two".to_string())]);
}

#[test]
fn tunnel_ids_wrap_past_255() {
    let tunnels: Vec<TunnelSpec> = (0..300).map(|i| spec("t", Some(1000), i as u16, Protocol::Tcp)).collect();
    let (a, entries) = assign_tunnels(&tunnels, "b", &Vec::new());
    assert_eq!(a[256].tunnel_id, 0);
    assert_eq!(a[299].tunnel_id, 43);
    assert!(entries.is_empty());
}

#[test]
fn fresh_assignments_use_hyphenated_uuids() {
    let (a, entries) = assign_tunnels_fresh(&sample(), "https://t.example.com");
    assert_eq!(entries.len(), 2);
    for (k, (id, uuid)) in entries.iter().enumerate() {
        assert_eq!(uuid.len(), 36);
        assert_eq!(uuid.as_bytes()[14], b'4');
        for (i, c) in uuid.chars().enumerate() {
            if i == 8 || i == 13 || i == 18 || i == 23 {
                assert_eq!(c, '-');
            } else {
                assert!(c.is_ascii_hexdigit() && !c.is_ascii_uppercase());
            }
        }
        let expect = format!("https://t.example.com/t/{}", uuid);
        assert_eq!(a[*id as usize].http_url.as_deref(), Some(expect.as_str()));
        assert_eq!(*id, if k == 0 { 1 } else { 3 });
    }
    assert_ne!(entries[0].1, entries[1].1);
}

#[test]
fn listeners_only_for_port_tunnels() {
    assert_eq!(public_listener_targets(&sample()), vec![(0u8, 25565u16), (4u8, 5353u16)]);
    assert!(public_listener_targets(&Vec::new()).is_empty());
}

#[test]
fn announced_urls_route_back_to_their_tunnels() {
    let base = "https://t.example.com";
    let (assignments, entries) = assign_tunnels_fresh(&sample(), base);
    let mut registry = HttpRegistry::new();
    registry.register_endpoints(42, &entries, 1_000);
    for a in &assignments {
        if let Some(url) = &a.http_url {
            let suffix = url.strip_prefix("https://t.example.com/t/").unwrap();
            let (uuid, path) = split_tunnel_path(&format!("{suffix}/index.html"));
            assert_eq!(path, "/index.html");
            assert_eq!(registry.route(&uuid, 2_000), Some((42, a.tunnel_id)));
            let (bare, root) = split_tunnel_path(suffix);
            assert_eq!(root, "/");
            assert_eq!(registry.lookup(&bare), Some((42, a.tunnel_id)));
        }
    }
    registry.deregister_session(42);
    for (_, uuid) in &entries {
        assert_eq!(registry.lookup(uuid), None);
    }
}
