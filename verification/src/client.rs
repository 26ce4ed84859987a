//! Client-side decisions outside the message loop: how long to wait before
//! reconnecting, and what to report of each assignment.
use vstd::prelude::*;
use crate::proto::{TunnelAssignment, TunnelSpec};

verus! {

/// Seconds to wait before the first reconnection attempt.
pub fn initial_backoff_secs() -> (d: u64)
    ensures
        d == 1,
{
    1
}

/// Longest wait between reconnection attempts, in seconds.
pub open spec fn max_backoff_secs() -> u64 {
    60
}

/// The wait that follows a wait of `delay_secs`: twice as long, but at most
/// `max_backoff_secs`.
pub open spec fn backoff_after(delay_secs: u64) -> u64 {
    if 2 * delay_secs <= max_backoff_secs() {
        (2 * delay_secs) as u64
    } else {
        max_backoff_secs()
    }
}

/// The wait after a failed attempt that waited `delay_secs`: twice as long, but at
/// most a minute.
pub fn next_backoff_secs(delay_secs: u64) -> (next: u64)
    requires
        delay_secs <= u64::MAX / 2,
    ensures
        next == backoff_after(delay_secs),
{
    let doubled = delay_secs * 2;
    if doubled <= 60 {
        doubled
    } else {
        60
    }
}

/// Waits that start at one second and go through `next_backoff_secs` stay between
/// one second and a minute, and never shrink.
pub proof fn law_backoff_bounded(delay_secs: u64)
    requires
        1 <= delay_secs <= max_backoff_secs(),
    ensures
        1 <= backoff_after(delay_secs) <= max_backoff_secs(),
        delay_secs <= backoff_after(delay_secs),
{
}

/// What the client reports of one assignment.
#[derive(Debug)]
pub enum AssignmentNotice {
    /// An HTTP tunnel is reachable at `url`.
    Http { name: String, url: String },
    /// A TCP/UDP tunnel is reachable on port `port` of the server.
    Port { name: String, port: u16 },
    /// Nothing to report.
    Nothing,
}

/// The name of the requested tunnel `tunnel_id`, or `?` if there is none.
pub open spec fn tunnel_label(tunnels: Seq<TunnelSpec>, tunnel_id: u8) -> Seq<char> {
    if (tunnel_id as int) < tunnels.len() {
        tunnels[tunnel_id as int].name@
    } else {
        seq!['?']
    }
}

/// What to report of assignment `a` for the tunnels the client requested: its URL
/// if it has one, else its port if it has one.
pub fn describe_assignment(tunnels: &Vec<TunnelSpec>, a: &TunnelAssignment) -> (n: AssignmentNotice)
    ensures
        match a.http_url {
            Some(url) => n matches AssignmentNotice::Http { name, url: u } && name@ == tunnel_label(
                tunnels@,
                a.tunnel_id,
            ) && u@ == url@,
            None => match a.remote_port {
                Some(port) => n matches AssignmentNotice::Port { name, port: p } && name@ == tunnel_label(
                    tunnels@,
                    a.tunnel_id,
                ) && p == port,
                None => n is Nothing,
            },
        },
{
    let idx = a.tunnel_id as usize;
    let name = if idx < tunnels.len() {
        tunnels[idx].name.clone()
    } else {
        let mut q = String::new();
        q.append("?");
        proof {
            reveal_strlit("?");
            assert(q@ =~= seq!['?']);
        }
        q
    };
    match &a.http_url {
        Some(url) => AssignmentNotice::Http { name, url: url.clone() },
        None => match a.remote_port {
            Some(port) => AssignmentNotice::Port { name, port },
            None => AssignmentNotice::Nothing,
        },
    }
}

} // verus!
