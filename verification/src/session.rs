//! What each side of a running control connection does with a message it
//! receives, and how a relayed connection's reads become messages.
use vstd::prelude::*;
use crate::handshake::WsEvent;
use crate::proto::{ControlMsg, TunnelSpec};
use crate::state::ServerState;
use crate::streams::{StreamTable, StreamTx};

verus! {

/// What the server does with a message from its client.
#[derive(Debug)]
pub enum SessionAction {
    /// Hand `payload` to the open stream `stream_id` on its sender `tx`.
    Forward { stream_id: u32, tx: StreamTx, payload: Vec<u8> },
    /// Data for a stream that is not open: dropped.
    Drop,
    /// The stream was closed and forgotten.
    Closed { stream_id: u32 },
    /// Send this message back.
    Reply(ControlMsg),
    /// Nothing to do.
    Ignore,
    /// A message the client should not send on a running session.
    Unexpected,
}

/// Handle one message from the client on a running session.
pub fn handle_msg(msg: ControlMsg, state: &mut ServerState) -> (action: SessionAction)
    ensures
        final(state).tunnels == old(state).tunnels,
        final(state).http_tunnel_ids == old(state).http_tunnel_ids,
        final(state).next_stream_id == old(state).next_stream_id,
        match msg {
            ControlMsg::Data { stream_id, payload } => final(state).streams@ == old(state).streams@
                && if old(state).streams@.contains_key(stream_id) {
                action matches SessionAction::Forward { stream_id: s, tx, payload: p } && s == stream_id
                    && tx == old(state).streams@[stream_id] && p == payload
            } else {
                action == SessionAction::Drop
            },
            ControlMsg::CloseStream { stream_id } => final(state).streams@ == old(state).streams@.remove(
                stream_id,
            ) && action == (SessionAction::Closed { stream_id }),
            ControlMsg::Ping => final(state).streams@ == old(state).streams@ && action
                == SessionAction::Reply(ControlMsg::Pong),
            ControlMsg::DataAck { .. } => final(state).streams@ == old(state).streams@ && action
                == SessionAction::Ignore,
            _ => final(state).streams@ == old(state).streams@ && action == SessionAction::Unexpected,
        },
{
    match msg {
        ControlMsg::Data { stream_id, payload } => match state.streams.get(stream_id) {
            Some(tx) => SessionAction::Forward { stream_id, tx, payload },
            None => SessionAction::Drop,
        },
        ControlMsg::CloseStream { stream_id } => {
            state.streams.remove(stream_id);
            SessionAction::Closed { stream_id }
        },
        ControlMsg::Ping => SessionAction::Reply(ControlMsg::Pong),
        ControlMsg::DataAck { .. } => SessionAction::Ignore,
        _ => SessionAction::Unexpected,
    }
}

/// What the client does with a message from the server.
#[derive(Debug)]
pub enum ClientAction {
    /// Connect stream `stream_id` to the local port `local_port`.
    OpenStream { stream_id: u32, local_port: u16 },
    /// A new connection on a tunnel the client did not request.
    UnknownTunnel { tunnel_id: u8 },
    /// Hand `payload` to the open stream `stream_id` on its sender `tx`.
    Forward { stream_id: u32, tx: StreamTx, payload: Vec<u8> },
    /// Data for a stream that is not open: dropped.
    Drop,
    /// The stream was closed and forgotten.
    Closed { stream_id: u32 },
    /// Send this message back.
    Reply(ControlMsg),
    /// Nothing to do.
    Ignore,
    /// A message the server should not send on a running session.
    Unexpected,
}

/// Handle one message from the server; `tunnels` are those the client requested.
pub fn client_dispatch(tunnels: &Vec<TunnelSpec>, streams: &mut StreamTable, msg: ControlMsg) -> (action:
    ClientAction)
    ensures
        match msg {
            ControlMsg::NewConn { stream_id, tunnel_id } => final(streams)@ == old(streams)@ && if tunnel_id
                < tunnels@.len() {
                action == (ClientAction::OpenStream {
                    stream_id,
                    local_port: tunnels@[tunnel_id as int].local_port,
                })
            } else {
                action == (ClientAction::UnknownTunnel { tunnel_id })
            },
            ControlMsg::Data { stream_id, payload } => final(streams)@ == old(streams)@ && if old(
                streams,
            )@.contains_key(stream_id) {
                action matches ClientAction::Forward { stream_id: s, tx, payload: p } && s == stream_id
                    && tx == old(streams)@[stream_id] && p == payload
            } else {
                action == ClientAction::Drop
            },
            ControlMsg::CloseStream { stream_id } => final(streams)@ == old(streams)@.remove(stream_id)
                && action == (ClientAction::Closed { stream_id }),
            ControlMsg::Ping => final(streams)@ == old(streams)@ && action == ClientAction::Reply(
                ControlMsg::Pong,
            ),
            ControlMsg::HelloOk { .. } => final(streams)@ == old(streams)@ && action == ClientAction::Ignore,
            ControlMsg::Pong => final(streams)@ == old(streams)@ && action == ClientAction::Ignore,
            _ => final(streams)@ == old(streams)@ && action == ClientAction::Unexpected,
        },
{
    match msg {
        ControlMsg::NewConn { stream_id, tunnel_id } => {
            let idx = tunnel_id as usize;
            if idx < tunnels.len() {
                ClientAction::OpenStream { stream_id, local_port: tunnels[idx].local_port }
            } else {
                ClientAction::UnknownTunnel { tunnel_id }
            }
        },
        ControlMsg::Data { stream_id, payload } => match streams.get(stream_id) {
            Some(tx) => ClientAction::Forward { stream_id, tx, payload },
            None => ClientAction::Drop,
        },
        ControlMsg::CloseStream { stream_id } => {
            streams.remove(stream_id);
            ClientAction::Closed { stream_id }
        },
        ControlMsg::Ping => ClientAction::Reply(ControlMsg::Pong),
        ControlMsg::HelloOk { .. } => ClientAction::Ignore,
        ControlMsg::Pong => ClientAction::Ignore,
        _ => ClientAction::Unexpected,
    }
}

/// Register the local connection's sender `tx` as stream `stream_id`, once
/// `client_dispatch` has asked for it to be opened.
pub fn open_local_stream(streams: &mut StreamTable, stream_id: u32, tx: StreamTx)
    ensures
        final(streams)@ == old(streams)@.insert(stream_id, tx),
{
    streams.insert(stream_id, tx);
}

/// What a running session's read loop does with one event from the WebSocket.
#[derive(Debug)]
pub enum LoopStep {
    /// Handle this message, then read the next event.
    Handle(ControlMsg),
    /// The peer closed the connection: the session ends normally.
    Stop,
    /// A frame without a message: read the next event.
    Continue,
}

/// The read loop of a running session, on either side: a message is handled, a
/// close ends the session, any other frame is skipped.
pub fn session_loop_step(ev: WsEvent) -> (step: LoopStep)
    ensures
        match ev {
            WsEvent::Message(msg) => step == LoopStep::Handle(msg),
            WsEvent::Closed => step == LoopStep::Stop,
            WsEvent::Other => step == LoopStep::Continue,
        },
{
    match ev {
        WsEvent::Message(msg) => LoopStep::Handle(msg),
        WsEvent::Closed => LoopStep::Stop,
        WsEvent::Other => LoopStep::Continue,
    }
}

/// Outcome of one read from a relayed TCP connection.
#[derive(Debug)]
pub enum ReadOutcome {
    /// These bytes were read (never empty).
    Bytes(Vec<u8>),
    /// The peer closed its side.
    Eof,
    /// The read, or the connection, failed.
    Failed,
}

/// What the relay sends after a read, and whether it goes on reading.
#[derive(Debug)]
pub enum RelayStep {
    /// Send the message and read again.
    Send(ControlMsg),
    /// Send the message and stop.
    Finish(ControlMsg),
}

/// Turn one read from the connection behind stream `stream_id` into the message
/// for the other side: the bytes as `Data`, or `CloseStream` once the connection ends.
pub fn relay_step(stream_id: u32, outcome: ReadOutcome) -> (step: RelayStep)
    ensures
        match outcome {
            ReadOutcome::Bytes(payload) => step == RelayStep::Send(ControlMsg::Data { stream_id, payload }),
            _ => step == RelayStep::Finish(ControlMsg::CloseStream { stream_id }),
        },
{
    match outcome {
        ReadOutcome::Bytes(payload) => RelayStep::Send(ControlMsg::Data { stream_id, payload }),
        _ => RelayStep::Finish(ControlMsg::CloseStream { stream_id }),
    }
}


/// Data on a stream goes to the sender registered for it: right after stream
/// `stream_id` is opened with sender `tx`, the stream is held with `tx`; once it is
/// closed, it is no longer held (until its id is reused).
pub proof fn law_open_then_close(streams: Map<u32, StreamTx>, stream_id: u32, tx: StreamTx)
    ensures
        streams.insert(stream_id, tx).contains_key(stream_id),
        streams.insert(stream_id, tx)[stream_id] == tx,
        !streams.insert(stream_id, tx).remove(stream_id).contains_key(stream_id),
        !streams.remove(stream_id).contains_key(stream_id),
{
}

/// Opening or closing one stream leaves every other stream as it was: open or
/// closed, and with the same sender.
pub proof fn law_streams_are_independent(streams: Map<u32, StreamTx>, changed: u32, tx: StreamTx, other: u32)
    requires
        other != changed,
    ensures
        streams.remove(changed).contains_key(other) == streams.contains_key(other),
        streams.insert(changed, tx).contains_key(other) == streams.contains_key(other),
        streams.contains_key(other) ==> streams.remove(changed)[other] == streams[other]
            && streams.insert(changed, tx)[other] == streams[other],
{
}

/// Closing a stream twice is the same as closing it once.
pub proof fn law_close_idempotent(streams: Map<u32, StreamTx>, stream_id: u32)
    ensures
        streams.remove(stream_id).remove(stream_id) == streams.remove(stream_id),
{
    assert(streams.remove(stream_id).remove(stream_id) =~= streams.remove(stream_id));
}

} // verus!
