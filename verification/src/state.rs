//! Per-connection state the server keeps for one authenticated client.
use vstd::prelude::*;
use crate::proto::{ControlMsg, TunnelSpec};
use crate::streams::{StreamTable, StreamTx};

verus! {

/// State of one client session: its tunnels, its HTTP endpoints, its open streams
/// and the id the next stream gets.
pub struct ServerState {
    /// Active streams keyed by stream id.
    pub streams: StreamTable,
    /// Tunnels the client registered.
    pub tunnels: Vec<TunnelSpec>,
    /// `(tunnel_id, uuid)` of each HTTP tunnel.
    pub http_tunnel_ids: Vec<(u8, String)>,
    /// The id the next stream gets.
    pub next_stream_id: u32,
}

impl ServerState {
    /// A session with no open streams; stream ids start at 1.
    pub fn new(tunnels: Vec<TunnelSpec>, http_tunnel_ids: Vec<(u8, String)>) -> (s: Self)
        ensures
            s.streams@ == Map::<u32, StreamTx>::empty(),
            s.tunnels == tunnels,
            s.http_tunnel_ids == http_tunnel_ids,
            s.next_stream_id == 1,
    {
        ServerState { streams: StreamTable::new(), tunnels, http_tunnel_ids, next_stream_id: 1 }
    }

    /// Hand out a stream id: the counter's value, which then advances by one,
    /// wrapping from `u32::MAX` to 0.
    pub fn next_stream_id(&mut self) -> (id: u32)
        ensures
            id == old(self).next_stream_id,
            final(self).next_stream_id == next_after(id),
            final(self).streams == old(self).streams,
            final(self).tunnels == old(self).tunnels,
            final(self).http_tunnel_ids == old(self).http_tunnel_ids,
    {
        let id = self.next_stream_id;
        self.next_stream_id = id.wrapping_add(1);
        id
    }

    /// Open a stream for a new connection on `tunnel_id`: give it the next id,
    /// register `tx` under it, and return the id with the `NewConn` message that
    /// tells the client.
    pub fn open_stream(&mut self, tunnel_id: u8, tx: StreamTx) -> (res: (u32, ControlMsg))
        ensures
            res.0 == old(self).next_stream_id,
            res.1 == (ControlMsg::NewConn { stream_id: old(self).next_stream_id, tunnel_id }),
            final(self).streams@ == old(self).streams@.insert(old(self).next_stream_id, tx),
            final(self).next_stream_id == next_after(old(self).next_stream_id),
            final(self).tunnels == old(self).tunnels,
            final(self).http_tunnel_ids == old(self).http_tunnel_ids,
    {
        let stream_id = self.next_stream_id();
        self.streams.insert(stream_id, tx);
        (stream_id, ControlMsg::NewConn { stream_id, tunnel_id })
    }
}

/// Two stream ids handed out one after the other differ.
pub proof fn law_consecutive_stream_ids_differ(first: u32)
    ensures
        first != next_after(first),
{
}


/// The id handed out after `id`: one more, wrapping from `u32::MAX` to 0.
pub open spec fn next_after(id: u32) -> u32 {
    if id == u32::MAX {
        0
    } else {
        (id + 1) as u32
    }
}

/// The id that the call numbered `j` (from 0) of a run of `next_stream_id` calls
/// returns, when the counter stood at `start` before the first.
pub open spec fn nth_stream_id(start: u32, j: nat) -> u32 {
    ((start + j) % 0x1_0000_0000) as u32
}

/// Calls of `next_stream_id` in sequence count up from the counter, wrapping at
/// 2^32: the first returns the counter, and each returns the successor of the one
/// before.
pub proof fn law_stream_ids_count_up(start: u32, j: nat)
    ensures
        nth_stream_id(start, 0) == start,
        nth_stream_id(start, j + 1) == next_after(nth_stream_id(start, j)),
{
    let m = 0x1_0000_0000int;
    let r = (start + j) % m;
    assert(0 <= r < m);
    assert((start + j + 1) % m == if r == m - 1 { 0 } else { r + 1 }) by (nonlinear_arith)
        requires
            r == (start + j) % m,
            m == 0x1_0000_0000int,
            0 <= r < m,
            start + j >= 0,
    {
        let q = (start + j) / m;
        assert(start + j == q * m + r);
        if r == m - 1 {
            assert(start + j + 1 == (q + 1) * m);
        } else {
            assert(start + j + 1 == q * m + (r + 1));
        }
    }
}

/// A fresh session hands out the ids 1, 2, .., n for its first n calls, n < 2^32,
/// each once.
pub proof fn law_fresh_session_ids(i: nat, j: nat)
    requires
        i < j < u32::MAX,
    ensures
        nth_stream_id(1, i) == i + 1,
        nth_stream_id(1, j) == j + 1,
        nth_stream_id(1, i) != nth_stream_id(1, j),
{
    assert((1 + i) % 0x1_0000_0000nat == 1 + i);
    assert((1 + j) % 0x1_0000_0000nat == 1 + j);
}

} // verus!
