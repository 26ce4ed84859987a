use rustunnel::proto::{ControlMsg, Protocol, TunnelSpec};
use rustunnel::handshake::WsEvent;
use rustunnel::session::{
    client_dispatch, handle_msg, open_local_stream, relay_step, session_loop_step, ClientAction, LoopStep, ReadOutcome,
    RelayStep, SessionAction,
};
use rustunnel::state::ServerState;
use rustunnel::streams::{StreamTable, StreamTx};
use tokio::sync::mpsc::{channel, Receiver};

fn sender() -> StreamTx {
    channel::<Vec<u8>>(1).0
}

fn pair() -> (StreamTx, Receiver<Vec<u8>>) {
    channel::<Vec<u8>>(4)
}

#[test]
fn stream_ids_start_at_one_and_count_up() {
    let mut st = ServerState::new(Vec::new(), Vec::new());
    assert_eq!(st.next_stream_id(), 1);
    assert_eq!(st.next_stream_id(), 2);
    let tx = sender();
    let kept = tx.clone();
    let (id, msg) = st.open_stream(4, tx);
    assert_eq!(id, 3);
    assert!(matches!(msg, ControlMsg::NewConn { stream_id: 3, tunnel_id: 4 }));
    assert!(st.streams.get(3).unwrap().same_channel(&kept));
    assert!(st.streams.get(2).is_none());
}

#[test]
fn stream_ids_wrap() {
    let mut st = ServerState::new(Vec::new(), Vec::new());
    st.next_stream_id = u32::MAX;
    assert_eq!(st.next_stream_id(), u32::MAX);
    assert_eq!(st.next_stream_id(), 0);
}

#[test]
fn server_data_goes_to_that_streams_sender() {
    let mut st = ServerState::new(Vec::new(), Vec::new());
    let (tx_a, mut rx_a) = pair();
    let (tx_b, mut rx_b) = pair();
    let kept_b = tx_b.clone();
    let (a, _) = st.open_stream(0, tx_a);
    let (b, _) = st.open_stream(0, tx_b);
    match handle_msg(ControlMsg::Data { stream_id: b, payload: vec![1, 2] }, &mut st) {
        SessionAction::Forward { stream_id, tx, payload } => {
            assert_eq!(stream_id, b);
            assert!(tx.same_channel(&kept_b));
            assert_eq!(payload, vec![1, 2]);
            tx.try_send(payload).unwrap();
        }
        other => panic!("unexpected {:?}", other),
    }
    assert_eq!(rx_b.try_recv().unwrap(), vec![1, 2]);
    assert!(rx_a.try_recv().is_err());
    // closing one stream keeps the other's sender
    assert!(matches!(handle_msg(ControlMsg::CloseStream { stream_id: a }, &mut st), SessionAction::Closed { .. }));
    assert!(matches!(handle_msg(ControlMsg::CloseStream { stream_id: a }, &mut st), SessionAction::Closed { .. }));
    assert!(st.streams.get(b).unwrap().same_channel(&kept_b));
    assert!(!st.streams.contains(a));
}

#[test]
fn server_handles_data_close_ping() {
    let mut st = ServerState::new(Vec::new(), Vec::new());
    let (id, _) = st.open_stream(0, sender());
    assert!(matches!(
        handle_msg(ControlMsg::Data { stream_id: id, payload: vec![1, 2] }, &mut st),
        SessionAction::Forward { payload, .. } if payload == vec![1, 2]
    ));
    assert!(matches!(handle_msg(ControlMsg::Data { stream_id: 99, payload: vec![] }, &mut st), SessionAction::Drop));
    assert!(matches!(handle_msg(ControlMsg::CloseStream { stream_id: id }, &mut st), SessionAction::Closed { .. }));
    assert!(!st.streams.contains(id));
    assert!(matches!(handle_msg(ControlMsg::Data { stream_id: id, payload: vec![3] }, &mut st), SessionAction::Drop));
    assert!(matches!(handle_msg(ControlMsg::Ping, &mut st), SessionAction::Reply(ControlMsg::Pong)));
    assert!(matches!(handle_msg(ControlMsg::DataAck { stream_id: 1, bytes: 5 }, &mut st), SessionAction::Ignore));
    assert!(matches!(handle_msg(ControlMsg::Pong, &mut st), SessionAction::Unexpected));
    assert!(matches!(handle_msg(ControlMsg::NewConn { stream_id: 1, tunnel_id: 0 }, &mut st), SessionAction::Unexpected));
}

#[test]
fn client_dispatch_cases() {
    let tunnels = vec![TunnelSpec { name: "a".to_string(), remote_port: Some(1), local_port: 8080, protocol: Protocol::Tcp }];
    let mut streams = StreamTable::new();
    assert!(matches!(
        client_dispatch(&tunnels, &mut streams, ControlMsg::NewConn { stream_id: 5, tunnel_id: 0 }),
        ClientAction::OpenStream { stream_id: 5, local_port: 8080 }
    ));
    assert!(matches!(
        client_dispatch(&tunnels, &mut streams, ControlMsg::NewConn { stream_id: 6, tunnel_id: 1 }),
        ClientAction::UnknownTunnel { tunnel_id: 1 }
    ));
    assert!(matches!(client_dispatch(&tunnels, &mut streams, ControlMsg::Data { stream_id: 5, payload: vec![1] }), ClientAction::Drop));
    let (tx5, mut rx5) = pair();
    let (tx7, mut rx7) = pair();
    let kept7 = tx7.clone();
    open_local_stream(&mut streams, 5, tx5);
    open_local_stream(&mut streams, 7, tx7);
    for p in [vec![1u8], vec![2, 3]] {
        match client_dispatch(&tunnels, &mut streams, ControlMsg::Data { stream_id: 5, payload: p.clone() }) {
            ClientAction::Forward { stream_id: 5, tx, payload } => {
                assert_eq!(payload, p);
                tx.try_send(payload).unwrap();
            }
            other => panic!("unexpected {:?}", other),
        }
    }
    assert_eq!(rx5.try_recv().unwrap(), vec![1]);
    assert_eq!(rx5.try_recv().unwrap(), vec![2, 3]);
    assert!(rx7.try_recv().is_err());
    assert!(matches!(client_dispatch(&tunnels, &mut streams, ControlMsg::CloseStream { stream_id: 5 }), ClientAction::Closed { stream_id: 5 }));
    assert!(!streams.contains(5));
    assert!(matches!(client_dispatch(&tunnels, &mut streams, ControlMsg::Data { stream_id: 5, payload: vec![9] }), ClientAction::Drop));
    assert!(streams.get(7).unwrap().same_channel(&kept7));
    streams.clear();
    assert!(!streams.contains(7));
    assert!(matches!(client_dispatch(&tunnels, &mut streams, ControlMsg::Ping), ClientAction::Reply(ControlMsg::Pong)));
    assert!(matches!(client_dispatch(&tunnels, &mut streams, ControlMsg::Pong), ClientAction::Ignore));
    assert!(matches!(client_dispatch(&tunnels, &mut streams, ControlMsg::HelloOk { assignments: vec![] }), ClientAction::Ignore));
    assert!(matches!(client_dispatch(&tunnels, &mut streams, ControlMsg::DataAck { stream_id: 1, bytes: 1 }), ClientAction::Unexpected));
}

#[test]
fn relay_sends_data_then_close() {
    match relay_step(7, ReadOutcome::Bytes(vec![9, 8])) {
        RelayStep::Send(ControlMsg::Data { stream_id, payload }) => {
            assert_eq!(stream_id, 7);
            assert_eq!(payload, vec![9, 8]);
        }
        other => panic!("unexpected {:?}", other),
    }
    assert!(matches!(relay_step(7, ReadOutcome::Eof), RelayStep::Finish(ControlMsg::CloseStream { stream_id: 7 })));
    assert!(matches!(relay_step(7, ReadOutcome::Failed), RelayStep::Finish(ControlMsg::CloseStream { stream_id: 7 })));
}

#[test]
fn fresh_session_hands_out_one_to_n() {
    let mut st = ServerState::new(Vec::new(), Vec::new());
    let ids: Vec<u32> = (0..1000).map(|_| st.next_stream_id()).collect();
    assert_eq!(ids, (1..=1000).collect::<Vec<u32>>());
}

#[test]
fn session_loop_handles_messages_stops_on_close_and_skips_frames() {
    assert!(matches!(session_loop_step(WsEvent::Message(ControlMsg::Ping)), LoopStep::Handle(ControlMsg::Ping)));
    assert!(matches!(
        session_loop_step(WsEvent::Message(ControlMsg::CloseStream { stream_id: 3 })),
        LoopStep::Handle(ControlMsg::CloseStream { stream_id: 3 })
    ));
    assert!(matches!(session_loop_step(WsEvent::Closed), LoopStep::Stop));
    assert!(matches!(session_loop_step(WsEvent::Other), LoopStep::Continue));
}
