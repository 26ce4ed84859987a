use rustunnel::client::{describe_assignment, initial_backoff_secs, next_backoff_secs, AssignmentNotice};
use rustunnel::proto::{Protocol, TunnelAssignment, TunnelSpec};

#[test]
fn backoff_doubles_up_to_a_minute() {
    let mut d = initial_backoff_secs();
    let mut seen = vec![d];
    for _ in 0..8 {
        d = next_backoff_secs(d);
        seen.push(d);
    }
    assert_eq!(seen, vec![1, 2, 4, 8, 16, 32, 60, 60, 60]);
    assert_eq!(next_backoff_secs(30), 60);
    assert_eq!(next_backoff_secs(31), 60);
}

#[test]
fn assignment_notices() {
    let tunnels = vec![
        TunnelSpec { name: "mc".to_string(), remote_port: Some(25565), local_port: 25565, protocol: Protocol::Tcp },
        TunnelSpec { name: "api".to_string(), remote_port: None, local_port: 3000, protocol: Protocol::Http },
    ];
    match describe_assignment(&tunnels, &TunnelAssignment { tunnel_id: 0, remote_port: Some(25565), http_url: None }) {
        AssignmentNotice::Port { name, port } => {
            assert_eq!(name, "mc");
            assert_eq!(port, 25565);
        }
        other => panic!("unexpected {:?}", other),
    }
    match describe_assignment(
        &tunnels,
        &TunnelAssignment { tunnel_id: 1, remote_port: None, http_url: Some("https://x/t/u".to_string()) },
    ) {
        AssignmentNotice::Http { name, url } => {
            assert_eq!(name, "api");
            assert_eq!(url, "https://x/t/u");
        }
        other => panic!("unexpected {:?}", other),
    }
    match describe_assignment(&tunnels, &TunnelAssignment { tunnel_id: 9, remote_port: Some(1), http_url: None }) {
        AssignmentNotice::Port { name, .. } => assert_eq!(name, "?"),
        other => panic!("unexpected {:?}", other),
    }
    assert!(matches!(
        describe_assignment(&tunnels, &TunnelAssignment { tunnel_id: 0, remote_port: None, http_url: None }),
        AssignmentNotice::Nothing
    ));
}
