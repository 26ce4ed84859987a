//! The opening exchange of a control connection: the server authenticates the
//! client's `Hello` and assigns each requested tunnel a public port or an HTTP
//! URL; the client waits for the assignments.
use vstd::prelude::*;
use crate::proto::{ControlMsg, Protocol, TunnelAssignment, TunnelSpec};

verus! {

/// What arrived on the WebSocket while a handshake is pending.
#[derive(Debug)]
pub enum WsEvent {
    /// A binary or text frame, decoded.
    Message(ControlMsg),
    /// The peer closed the connection, or the stream ended.
    Closed,
    /// A frame that carries no message (ping, pong, raw frame).
    Other,
}

/// Why a handshake failed.
#[derive(Debug, Clone, Copy, PartialEq, Eq, Structural)]
pub enum HandshakeError {
    /// The client's token is not the configured one.
    AuthFailed,
    /// A message other than the one the handshake expects.
    UnexpectedMessage,
    /// The connection closed before the handshake completed.
    ClosedEarly,
}

/// Where a pending handshake stands after one event.
#[derive(Debug)]
pub enum HandshakeStep<T> {
    /// Completed, with what it yields.
    Done(T),
    /// Failed; the connection is dropped.
    Fail(HandshakeError),
    /// Still waiting for the next event.
    Wait,
}

/// The server's handshake: a `Hello` carrying the configured token yields the
/// requested tunnels; any other token, message or a close fails it; frames
/// without a message are skipped.
pub fn server_handshake_step(auth_token: &String, ev: WsEvent) -> (step: HandshakeStep<Vec<TunnelSpec>>)
    ensures
        match ev {
            WsEvent::Message(ControlMsg::Hello { auth_token: token, tunnels }) => if token@ == auth_token@ {
                step == HandshakeStep::Done(tunnels)
            } else {
                step == HandshakeStep::<Vec<TunnelSpec>>::Fail(HandshakeError::AuthFailed)
            },
            WsEvent::Message(_) => step == HandshakeStep::<Vec<TunnelSpec>>::Fail(
                HandshakeError::UnexpectedMessage,
            ),
            WsEvent::Closed => step == HandshakeStep::<Vec<TunnelSpec>>::Fail(HandshakeError::ClosedEarly),
            WsEvent::Other => step == HandshakeStep::<Vec<TunnelSpec>>::Wait,
        },
{
    match ev {
        WsEvent::Message(ControlMsg::Hello { auth_token: token, tunnels }) => {
            if token == *auth_token {
                HandshakeStep::Done(tunnels)
            } else {
                HandshakeStep::Fail(HandshakeError::AuthFailed)
            }
        },
        WsEvent::Message(_) => HandshakeStep::Fail(HandshakeError::UnexpectedMessage),
        WsEvent::Closed => HandshakeStep::Fail(HandshakeError::ClosedEarly),
        WsEvent::Other => HandshakeStep::Wait,
    }
}

/// The client's handshake: `HelloOk` yields the assignments; any other message
/// or a close fails it; frames without a message are skipped.
pub fn client_handshake_step(ev: WsEvent) -> (step: HandshakeStep<Vec<TunnelAssignment>>)
    ensures
        match ev {
            WsEvent::Message(ControlMsg::HelloOk { assignments }) => step == HandshakeStep::Done(assignments),
            WsEvent::Message(_) => step == HandshakeStep::<Vec<TunnelAssignment>>::Fail(
                HandshakeError::UnexpectedMessage,
            ),
            WsEvent::Closed => step == HandshakeStep::<Vec<TunnelAssignment>>::Fail(
                HandshakeError::ClosedEarly,
            ),
            WsEvent::Other => step == HandshakeStep::<Vec<TunnelAssignment>>::Wait,
        },
{
    match ev {
        WsEvent::Message(ControlMsg::HelloOk { assignments }) => HandshakeStep::Done(assignments),
        WsEvent::Message(_) => HandshakeStep::Fail(HandshakeError::UnexpectedMessage),
        WsEvent::Closed => HandshakeStep::Fail(HandshakeError::ClosedEarly),
        WsEvent::Other => HandshakeStep::Wait,
    }
}


/// Whether a tunnel is served through the HTTP proxy.
pub open spec fn is_http(t: TunnelSpec) -> bool {
    t.protocol == Protocol::Http
}

/// How many of the tunnels are HTTP tunnels.
pub open spec fn http_count(ts: Seq<TunnelSpec>) -> nat
    decreases ts.len(),
{
    if ts.len() == 0 {
        0
    } else {
        http_count(ts.drop_last()) + if is_http(ts.last()) {
            1nat
        } else {
            0nat
        }
    }
}

/// The public URL of the HTTP endpoint `uuid` under `base`: `{base}/t/{uuid}`.
pub open spec fn tunnel_url(base: Seq<char>, uuid: Seq<char>) -> Seq<char> {
    base + seq!['/', 't', '/'] + uuid
}

/// The strings' contents.
pub open spec fn string_views(v: Seq<String>) -> Seq<Seq<char>> {
    Seq::new(v.len(), |i: int| v[i]@)
}

/// `a` is what tunnel `i` of `ts` is assigned, HTTP tunnels taking the UUIDs of
/// `uuids` in order.
pub open spec fn is_assignment(
    a: TunnelAssignment,
    ts: Seq<TunnelSpec>,
    i: int,
    base: Seq<char>,
    uuids: Seq<Seq<char>>,
) -> bool {
    &&& a.tunnel_id == i as u8
    &&& if is_http(ts[i]) {
        &&& a.remote_port is None
        &&& a.http_url matches Some(url) && url@ == tunnel_url(base, uuids[http_count(ts.take(i)) as int])
    } else {
        &&& a.remote_port == ts[i].remote_port
        &&& a.http_url is None
    }
}

/// `(tunnel_id, uuid)` of each HTTP tunnel of `ts`, in order, with the UUIDs of `uuids`.
pub open spec fn http_entries_of(ts: Seq<TunnelSpec>, uuids: Seq<Seq<char>>) -> Seq<(u8, Seq<char>)>
    decreases ts.len(),
{
    if ts.len() == 0 {
        Seq::empty()
    } else {
        let prev = http_entries_of(ts.drop_last(), uuids);
        if is_http(ts.last()) {
            prev.push((((ts.len() - 1) as int) as u8, uuids[http_count(ts.drop_last()) as int]))
        } else {
            prev
        }
    }
}

/// The entries' tunnel ids and UUID contents.
pub open spec fn entry_views(v: Seq<(u8, String)>) -> Seq<(u8, Seq<char>)> {
    Seq::new(v.len(), |i: int| (v[i].0, v[i].1@))
}

/// `(tunnel_id, remote_port)` of each TCP/UDP tunnel of `ts` that names a port, in order.
pub open spec fn listener_targets_of(ts: Seq<TunnelSpec>) -> Seq<(u8, u16)>
    decreases ts.len(),
{
    if ts.len() == 0 {
        Seq::empty()
    } else {
        let prev = listener_targets_of(ts.drop_last());
        if !is_http(ts.last()) && ts.last().remote_port is Some {
            prev.push((((ts.len() - 1) as int) as u8, ts.last().remote_port->0))
        } else {
            prev
        }
    }
}

proof fn lemma_take_succ(ts: Seq<TunnelSpec>, i: int)
    requires
        0 <= i < ts.len(),
    ensures
        ts.take(i + 1).drop_last() == ts.take(i),
        ts.take(i + 1).last() == ts[i],
        ts.take(i + 1).len() == i + 1,
{
    assert(ts.take(i + 1).drop_last() =~= ts.take(i));
}

proof fn lemma_http_count_prefix(ts: Seq<TunnelSpec>, i: int, j: int)
    requires
        0 <= i <= j <= ts.len(),
    ensures
        http_count(ts.take(i)) <= http_count(ts.take(j)),
    decreases j - i,
{
    if i < j {
        lemma_http_count_prefix(ts, i, j - 1);
        lemma_take_succ(ts, j - 1);
    }
}

pub proof fn lemma_http_entries_len(ts: Seq<TunnelSpec>, uuids: Seq<Seq<char>>)
    ensures
        http_entries_of(ts, uuids).len() == http_count(ts),
        forall|k: int| 0 <= k < http_count(ts) ==> (#[trigger] http_entries_of(ts, uuids)[k]).1 == uuids[k],
    decreases ts.len(),
{
    if ts.len() > 0 {
        lemma_http_entries_len(ts.drop_last(), uuids);
    }
}

/// Assign each requested tunnel: HTTP tunnels get `{base}/t/{uuid}` with the UUIDs of
/// `uuids` taken in order; TCP/UDP tunnels keep their requested port. Also returns
/// `(tunnel_id, uuid)` of each HTTP tunnel. A tunnel's id is its index, truncated to 8 bits.
pub fn assign_tunnels(tunnels: &Vec<TunnelSpec>, http_base_url: &str, uuids: &Vec<String>) -> (res: (
    Vec<TunnelAssignment>,
    Vec<(u8, String)>,
))
    requires
        uuids@.len() == http_count(tunnels@),
    ensures
        res.0@.len() == tunnels@.len(),
        forall|i: int|
            0 <= i < tunnels@.len() ==> is_assignment(
                #[trigger] res.0@[i],
                tunnels@,
                i,
                http_base_url@,
                string_views(uuids@),
            ),
        entry_views(res.1@) == http_entries_of(tunnels@, string_views(uuids@)),
{
    let ghost ts = tunnels@;
    let ghost us = string_views(uuids@);
    let mut assignments: Vec<TunnelAssignment> = Vec::new();
    let mut entries: Vec<(u8, String)> = Vec::new();
    let mut next_uuid: usize = 0;
    let n = tunnels.len();
    proof {
        assert(ts.take(0) =~= Seq::<TunnelSpec>::empty());
        assert(entry_views(entries@) =~= http_entries_of(ts.take(0), us));
    }
    for i in 0..n
        invariant
            n == ts.len(),
            ts == tunnels@,
            us == string_views(uuids@),
            uuids@.len() == http_count(ts),
            next_uuid == http_count(ts.take(i as int)),
            assignments@.len() == i,
            forall|j: int| 0 <= j < i ==> is_assignment(#[trigger] assignments@[j], ts, j, http_base_url@, us),
            entry_views(entries@) == http_entries_of(ts.take(i as int), us),
    {
        proof {
            lemma_take_succ(ts, i as int);
            lemma_http_count_prefix(ts, i as int + 1, n as int);
            assert(ts.take(n as int) =~= ts);
            assert(http_count(ts.take(i as int + 1)) == http_count(ts.take(i as int)) + if is_http(ts[i as int]) {
                1nat
            } else {
                0nat
            });
        }
        let t = &tunnels[i];
        let tunnel_id = i as u8;
        let ghost before = entries@;
        if t.protocol == Protocol::Http {
            assert(next_uuid < uuids.len());
            let uuid = &uuids[next_uuid];
            let mut url = http_base_url.to_owned();
            url.append("/t/");
            url.append(uuid.as_str());
            proof {
                reveal_strlit("/t/");
                assert(url@ =~= tunnel_url(http_base_url@, us[next_uuid as int]));
            }
            entries.push((tunnel_id, uuid.clone()));
            assignments.push(TunnelAssignment { tunnel_id, remote_port: None, http_url: Some(url) });
            next_uuid = next_uuid + 1;
            proof {
                assert(entry_views(entries@) =~= entry_views(before).push((tunnel_id, us[next_uuid - 1])));
            }
        } else {
            assignments.push(TunnelAssignment { tunnel_id, remote_port: t.remote_port, http_url: None });
            proof {
                assert(entry_views(entries@) =~= entry_views(before));
            }
        }
    }
    proof {
        assert(ts.take(n as int) =~= ts);
    }
    (assignments, entries)
}

/// The `(tunnel_id, remote_port)` of each TCP/UDP tunnel that names a port: the
/// public listeners the server opens.
pub fn public_listener_targets(tunnels: &Vec<TunnelSpec>) -> (targets: Vec<(u8, u16)>)
    ensures
        targets@ == listener_targets_of(tunnels@),
{
    let ghost ts = tunnels@;
    let mut targets: Vec<(u8, u16)> = Vec::new();
    let n = tunnels.len();
    proof {
        assert(ts.take(0) =~= Seq::<TunnelSpec>::empty());
    }
    for i in 0..n
        invariant
            n == ts.len(),
            ts == tunnels@,
            targets@ == listener_targets_of(ts.take(i as int)),
    {
        proof {
            lemma_take_succ(ts, i as int);
        }
        let t = &tunnels[i];
        if t.protocol != Protocol::Http {
            match t.remote_port {
                Some(port) => {
                    targets.push((i as u8, port));
                },
                None => {},
            }
        }
    }
    proof {
        assert(ts.take(n as int) =~= ts);
    }
    targets
}


/// The server listens for each TCP/UDP tunnel on the public port the client asked
/// for, never on another port: every listener target `(id, port)` comes from a
/// tunnel at index `i` (with `id == i as u8`) that is not an HTTP tunnel and requested
/// `remote_port == Some(port)`; and every such tunnel gets its listener.
pub proof fn law_listeners_on_requested_ports(ts: Seq<TunnelSpec>)
    ensures
        forall|k: int|
            0 <= k < listener_targets_of(ts).len() ==> exists|i: int|
                #![trigger ts[i]]
                0 <= i < ts.len() && !is_http(ts[i]) && ts[i].remote_port == Some(
                    (#[trigger] listener_targets_of(ts)[k]).1,
                ) && listener_targets_of(ts)[k].0 == i as u8,
        forall|i: int|
            0 <= i < ts.len() && !is_http(ts[i]) && (#[trigger] ts[i]).remote_port is Some ==> exists|k: int|
                0 <= k < listener_targets_of(ts).len() && #[trigger] listener_targets_of(ts)[k] == (
                    i as u8,
                    ts[i].remote_port->0,
                ),
    decreases ts.len(),
{
    if ts.len() > 0 {
        let prev = ts.drop_last();
        law_listeners_on_requested_ports(prev);
        let lt = listener_targets_of(ts);
        let lp = listener_targets_of(prev);
        let last = (ts.len() - 1) as int;
        assert forall|k: int| 0 <= k < lt.len() implies exists|i: int|
            #![trigger ts[i]]
            0 <= i < ts.len() && !is_http(ts[i]) && ts[i].remote_port == Some((#[trigger] lt[k]).1) && lt[k].0
                == i as u8 by {
            if k < lp.len() {
                assert(lt[k] == lp[k]);
                let i = choose|i: int|
                    #![trigger prev[i]]
                    0 <= i < prev.len() && !is_http(prev[i]) && prev[i].remote_port == Some(lp[k].1) && lp[k].0
                        == i as u8;
                assert(0 <= i < prev.len());
                assert(ts[i] == prev[i]);
            } else {
                assert(ts[last] == ts.last());
            }
        }
        assert forall|i: int|
            0 <= i < ts.len() && !is_http(ts[i]) && (#[trigger] ts[i]).remote_port is Some implies exists|k: int|
                0 <= k < lt.len() && #[trigger] lt[k] == (i as u8, ts[i].remote_port->0) by {
            if i < last {
                assert(prev[i] == ts[i]);
                let k = choose|k: int|
                    0 <= k < lp.len() && #[trigger] lp[k] == (i as u8, prev[i].remote_port->0);
                assert(lt[k] == lp[k]);
            } else {
                assert(ts[i] == ts.last());
                assert(lt[lp.len() as int] == (i as u8, ts[i].remote_port->0));
            }
        }
    }
}

/// A lower-case hexadecimal digit.
pub open spec fn is_lower_hex(c: char) -> bool {
    ('0' <= c && c <= '9') || ('a' <= c && c <= 'f')
}

/// The hyphenated lower-case form of a UUID: 36 characters, `-` at positions 8,
/// 13, 18 and 23, lower-case hexadecimal digits elsewhere.
pub open spec fn is_hyphenated_uuid(s: Seq<char>) -> bool {
    &&& s.len() == 36
    &&& forall|i: int|
        0 <= i < 36 ==> if i == 8 || i == 13 || i == 18 || i == 23 {
            #[trigger] s[i] == '-'
        } else {
            is_lower_hex(s[i])
        }
}

/// The hyphenated lower-case form of a version-4 (random) UUID: the version digit
/// at position 14 is `4`.
pub open spec fn is_v4_uuid_string(s: Seq<char>) -> bool {
    is_hyphenated_uuid(s) && s[14] == '4'
}

/// Calls `uuid::Uuid::new_v4` and formats the UUID with `to_string`. The UUID is
/// random, so nothing is claimed of its value beyond its form: `Display` writes
/// the hyphenated lower-case form, and `new_v4` sets the version digit to 4.
#[verifier::external_body]
fn new_uuid_v4_string() -> (s: String)
    ensures
        is_v4_uuid_string(s@),
{
    uuid::Uuid::new_v4().to_string()
}

/// The lower-case hexadecimal digit for `v < 16`.
pub open spec fn hex_char(v: u64) -> char {
    if v < 10 {
        (v + 48) as char
    } else {
        (v + 87) as char
    }
}

/// The `j`-th four-bit digit of `c`, from the most significant (`j` from 0 to 15).
pub open spec fn nibble(c: u64, j: int) -> u64 {
    (c >> ((60 - 4 * j) as u64)) & 15
}

/// The sixteen lower-case hexadecimal digits of `c`, most significant first.
pub open spec fn hex16(c: u64) -> Seq<char> {
    Seq::new(16, |j: int| hex_char(nibble(c, j)))
}

/// The version-4 UUID numbered `c`: the digits of `c` in the first twelve places,
/// version `4`, variant `8`, zeros elsewhere.
pub open spec fn numbered_uuid(c: u64) -> Seq<char> {
    hex16(c).take(8) + seq!['-'] + hex16(c).subrange(8, 12) + seq!['-', '4', '0', '0', '0', '-', '8', '0', '0', '0', '-']
        + hex16(c).skip(12) + seq!['0', '0', '0', '0', '0', '0', '0', '0']
}

proof fn lemma_hex_char(v: u64, w: u64)
    requires
        v < 16,
        w < 16,
    ensures
        is_lower_hex(hex_char(v)),
        hex_char(v) == hex_char(w) ==> v == w,
{
}

proof fn lemma_nibbles_determine(c: u64, d: u64)
    requires
        (c >> 60u64) & 15 == (d >> 60u64) & 15,
        (c >> 56u64) & 15 == (d >> 56u64) & 15,
        (c >> 52u64) & 15 == (d >> 52u64) & 15,
        (c >> 48u64) & 15 == (d >> 48u64) & 15,
        (c >> 44u64) & 15 == (d >> 44u64) & 15,
        (c >> 40u64) & 15 == (d >> 40u64) & 15,
        (c >> 36u64) & 15 == (d >> 36u64) & 15,
        (c >> 32u64) & 15 == (d >> 32u64) & 15,
        (c >> 28u64) & 15 == (d >> 28u64) & 15,
        (c >> 24u64) & 15 == (d >> 24u64) & 15,
        (c >> 20u64) & 15 == (d >> 20u64) & 15,
        (c >> 16u64) & 15 == (d >> 16u64) & 15,
        (c >> 12u64) & 15 == (d >> 12u64) & 15,
        (c >> 8u64) & 15 == (d >> 8u64) & 15,
        (c >> 4u64) & 15 == (d >> 4u64) & 15,
        (c >> 0u64) & 15 == (d >> 0u64) & 15,
    ensures
        c == d,
{
    assert(c == d) by (bit_vector)
        requires
            (c >> 60u64) & 15 == (d >> 60u64) & 15,
            (c >> 56u64) & 15 == (d >> 56u64) & 15,
            (c >> 52u64) & 15 == (d >> 52u64) & 15,
            (c >> 48u64) & 15 == (d >> 48u64) & 15,
            (c >> 44u64) & 15 == (d >> 44u64) & 15,
            (c >> 40u64) & 15 == (d >> 40u64) & 15,
            (c >> 36u64) & 15 == (d >> 36u64) & 15,
            (c >> 32u64) & 15 == (d >> 32u64) & 15,
            (c >> 28u64) & 15 == (d >> 28u64) & 15,
            (c >> 24u64) & 15 == (d >> 24u64) & 15,
            (c >> 20u64) & 15 == (d >> 20u64) & 15,
            (c >> 16u64) & 15 == (d >> 16u64) & 15,
            (c >> 12u64) & 15 == (d >> 12u64) & 15,
            (c >> 8u64) & 15 == (d >> 8u64) & 15,
            (c >> 4u64) & 15 == (d >> 4u64) & 15,
            (c >> 0u64) & 15 == (d >> 0u64) & 15,
    ;
}

proof fn lemma_nibble_small(c: u64, j: int)
    ensures
        nibble(c, j) < 16,
{
    let s = (60 - 4 * j) as u64;
    assert((c >> s) & 15 < 16) by (bit_vector);
}

/// Different numbers give different UUIDs, each a version-4 UUID.
proof fn lemma_numbered_uuid(c: u64, d: u64)
    ensures
        is_v4_uuid_string(numbered_uuid(c)),
        numbered_uuid(c) == numbered_uuid(d) ==> c == d,
{
    let u = numbered_uuid(c);
    assert forall|j: int| 0 <= j < 16 implies is_lower_hex(#[trigger] hex16(c)[j]) by {
        lemma_nibble_small(c, j);
        lemma_hex_char(nibble(c, j), 0);
    }
    assert forall|i: int| 0 <= i < 36 implies if i == 8 || i == 13 || i == 18 || i == 23 {
        #[trigger] u[i] == '-'
    } else {
        is_lower_hex(u[i])
    } by {
        if i < 8 {
            assert(u[i] == hex16(c)[i]);
        } else if 8 < i < 13 {
            assert(u[i] == hex16(c)[i - 1]);
        } else if 23 < i < 28 {
            assert(u[i] == hex16(c)[i - 12]);
        }
    }
    if u == numbered_uuid(d) {
        let v = numbered_uuid(d);
        assert forall|j: int| 0 <= j < 16 implies nibble(c, j) == nibble(d, j) by {
            let i = if j < 8 {
                j
            } else if j < 12 {
                j + 1
            } else {
                j + 12
            };
            assert(u[i] == hex16(c)[j]);
            assert(v[i] == hex16(d)[j]);
            lemma_nibble_small(c, j);
            lemma_nibble_small(d, j);
            lemma_hex_char(nibble(c, j), nibble(d, j));
        }
        assert(nibble(c, 0) == nibble(d, 0));
        assert(nibble(c, 1) == nibble(d, 1));
        assert(nibble(c, 2) == nibble(d, 2));
        assert(nibble(c, 3) == nibble(d, 3));
        assert(nibble(c, 4) == nibble(d, 4));
        assert(nibble(c, 5) == nibble(d, 5));
        assert(nibble(c, 6) == nibble(d, 6));
        assert(nibble(c, 7) == nibble(d, 7));
        assert(nibble(c, 8) == nibble(d, 8));
        assert(nibble(c, 9) == nibble(d, 9));
        assert(nibble(c, 10) == nibble(d, 10));
        assert(nibble(c, 11) == nibble(d, 11));
        assert(nibble(c, 12) == nibble(d, 12));
        assert(nibble(c, 13) == nibble(d, 13));
        assert(nibble(c, 14) == nibble(d, 14));
        assert(nibble(c, 15) == nibble(d, 15));
        lemma_nibbles_determine(c, d);
    }
}

/// The sixteen hexadecimal digits of `c`.
fn hex16_string(c: u64) -> (s: String)
    ensures
        s@ == hex16(c),
{
    let digits = "0123456789abcdef";
    proof {
        reveal_strlit("0123456789abcdef");
        assert forall|v: u64| v < 16 implies #[trigger] digits@[v as int] == hex_char(v) by {
            if v == 0 {} else if v == 1 {} else if v == 2 {} else if v == 3 {} else if v == 4 {}
            else if v == 5 {} else if v == 6 {} else if v == 7 {} else if v == 8 {} else if v == 9 {}
            else if v == 10 {} else if v == 11 {} else if v == 12 {} else if v == 13 {} else if v == 14 {}
            else {}
        }
    }
    let mut s = String::new();
    let mut j: u64 = 0;
    while j < 16
        invariant
            j <= 16,
            digits@.len() == 16,
            forall|v: u64| v < 16 ==> #[trigger] digits@[v as int] == hex_char(v),
            s@ == hex16(c).take(j as int),
        decreases 16 - j,
    {
        let v = (c >> (60 - 4 * j)) & 15;
        proof {
            lemma_nibble_small(c, j as int);
            assert(v == nibble(c, j as int));
        }
        let vi = v as usize;
        let d = digits.substring_char(vi, vi + 1);
        let ghost before = s@;
        s.append(d);
        proof {
            assert(d@ =~= seq![hex_char(v)]);
            assert(s@ =~= hex16(c).take(j as int + 1));
        }
        j = j + 1;
    }
    proof {
        assert(hex16(c).take(16) =~= hex16(c));
    }
    s
}

/// The version-4 UUID numbered `c`.
fn numbered_uuid_string(c: u64) -> (u: String)
    ensures
        u@ == numbered_uuid(c),
{
    let h = hex16_string(c);
    let hs = h.as_str();
    let mut u = String::new();
    u.append(hs.substring_char(0, 8));
    u.append("-");
    u.append(hs.substring_char(8, 12));
    u.append("-4000-8000-");
    u.append(hs.substring_char(12, 16));
    u.append("00000000");
    proof {
        reveal_strlit("-");
        reveal_strlit("-4000-8000-");
        reveal_strlit("00000000");
        assert(u@ =~= numbered_uuid(c));
    }
    u
}

/// Whether `s` is one of `v`.
fn contains_string(v: &Vec<String>, s: &String) -> (res: bool)
    ensures
        res == exists|k: int| 0 <= k < v@.len() && (#[trigger] v@[k])@ == s@,
{
    let n = v.len();
    for i in 0..n
        invariant
            n == v@.len(),
            forall|k: int| 0 <= k < i ==> (#[trigger] v@[k])@ != s@,
    {
        if v[i] == *s {
            return true;
        }
    }
    false
}

/// Among any `n + 1` numbered UUIDs, one is none of `taken` once `taken` has at most
/// `n` UUIDs.
proof fn lemma_numbered_uuids_outnumber(taken: Seq<Seq<char>>, n: u64)
    requires
        forall|d: u64| d <= n ==> taken.contains(#[trigger] numbered_uuid(d)),
    ensures
        n < taken.len(),
{
    let x = vstd::set_lib::set_int_range(0, n + 1);
    let f = |d: int| numbered_uuid(d as u64);
    vstd::set_lib::lemma_int_range(0, n + 1);
    assert forall|a: int, b: int| x.contains(a) && x.contains(b) && #[trigger] f(a) == #[trigger] f(b) implies a
        == b by {
        lemma_numbered_uuid(a as u64, b as u64);
    }
    let y = x.map(f);
    vstd::set_lib::lemma_map_size(x, y, f);
    assert forall|u: Seq<char>| y.contains(u) implies taken.to_set().contains(u) by {
        let a = choose|a: int| x.contains(a) && f(a) == u;
        assert(taken.contains(numbered_uuid(a as u64)));
    }
    taken.lemma_cardinality_of_set();
    vstd::seq_lib::seq_to_set_is_finite(taken);
    vstd::set_lib::lemma_len_subset(y, taken.to_set());
}

/// A version-4 UUID that none of `taken` is: a random one, or, should the random
/// one be taken already, the first numbered one that is free.
fn fresh_uuid(taken: &Vec<String>) -> (u: String)
    ensures
        is_v4_uuid_string(u@),
        forall|k: int| 0 <= k < taken@.len() ==> (#[trigger] taken@[k])@ != u@,
{
    let u = new_uuid_v4_string();
    if !contains_string(taken, &u) {
        return u;
    }
    let n = taken.len() as u64;
    let mut c: u64 = 0;
    loop
        invariant
            c <= n,
            n == taken@.len(),
            forall|d: u64| d < c ==> string_views(taken@).contains(#[trigger] numbered_uuid(d)),
        decreases n - c,
    {
        let cand = numbered_uuid_string(c);
        if !contains_string(taken, &cand) {
            proof {
                lemma_numbered_uuid(c, c);
            }
            return cand;
        }
        proof {
            let k = choose|k: int| 0 <= k < taken@.len() && (#[trigger] taken@[k])@ == cand@;
            assert(string_views(taken@)[k] == numbered_uuid(c));
            assert forall|d: u64| d <= c implies string_views(taken@).contains(#[trigger] numbered_uuid(d)) by {
                if d == c {
                    assert(string_views(taken@)[k] == numbered_uuid(d));
                }
            }
            lemma_numbered_uuids_outnumber(string_views(taken@), c);
        }
        c = c + 1;
    }
}

/// Assign each requested tunnel as `assign_tunnels` does, with a fresh random
/// UUID for each HTTP tunnel; no two HTTP tunnels get the same UUID.
pub fn assign_tunnels_fresh(tunnels: &Vec<TunnelSpec>, http_base_url: &str) -> (res: (
    Vec<TunnelAssignment>,
    Vec<(u8, String)>,
))
    ensures
        res.1@.len() == http_count(tunnels@),
        forall|k: int| 0 <= k < res.1@.len() ==> is_v4_uuid_string((#[trigger] res.1@[k]).1@),
        forall|j: int, k: int|
            0 <= j < res.1@.len() && 0 <= k < res.1@.len() && j != k ==> (#[trigger] res.1@[j]).1@ != (
            #[trigger] res.1@[k]).1@,
        res.0@.len() == tunnels@.len(),
        forall|i: int|
            0 <= i < tunnels@.len() ==> is_assignment(
                #[trigger] res.0@[i],
                tunnels@,
                i,
                http_base_url@,
                entry_views(res.1@).map_values(|e: (u8, Seq<char>)| e.1),
            ),
        entry_views(res.1@) == http_entries_of(
            tunnels@,
            entry_views(res.1@).map_values(|e: (u8, Seq<char>)| e.1),
        ),
{
    let ghost ts = tunnels@;
    let mut uuids: Vec<String> = Vec::new();
    let n = tunnels.len();
    proof {
        assert(ts.take(0) =~= Seq::<TunnelSpec>::empty());
    }
    for i in 0..n
        invariant
            n == ts.len(),
            ts == tunnels@,
            uuids@.len() == http_count(ts.take(i as int)),
            forall|k: int| 0 <= k < uuids@.len() ==> is_v4_uuid_string((#[trigger] uuids@[k])@),
            forall|j: int, k: int|
                0 <= j < uuids@.len() && 0 <= k < uuids@.len() && j != k ==> (#[trigger] uuids@[j])@ != (
                #[trigger] uuids@[k])@,
    {
        proof {
            lemma_take_succ(ts, i as int);
        }
        if tunnels[i].protocol == Protocol::Http {
            let u = fresh_uuid(&uuids);
            uuids.push(u);
        }
    }
    proof {
        assert(ts.take(n as int) =~= ts);
    }
    let res = assign_tunnels(tunnels, http_base_url, &uuids);
    proof {
        let us = string_views(uuids@);
        lemma_http_entries_len(ts, us);
        assert(entry_views(res.1@).map_values(|e: (u8, Seq<char>)| e.1) =~= us);
        assert forall|k: int| 0 <= k < res.1@.len() implies is_v4_uuid_string((#[trigger] res.1@[k]).1@) by {
            assert(entry_views(res.1@)[k] == http_entries_of(ts, us)[k]);
        }
        assert forall|j: int, k: int|
            0 <= j < res.1@.len() && 0 <= k < res.1@.len() && j != k implies (#[trigger] res.1@[j]).1@ != (
            #[trigger] res.1@[k]).1@ by {
            assert(entry_views(res.1@)[k] == http_entries_of(ts, us)[k]);
            assert(entry_views(res.1@)[j] == http_entries_of(ts, us)[j]);
        }
    }
    res
}


/// The HTTP entry of HTTP tunnel `i` is `(i as u8, uuids[k])`, where `k` counts the
/// HTTP tunnels before it.
pub proof fn lemma_http_entry_of_tunnel(ts: Seq<TunnelSpec>, uuids: Seq<Seq<char>>, i: int)
    requires
        0 <= i < ts.len(),
        is_http(ts[i]),
    ensures
        http_count(ts.take(i)) < http_count(ts),
        http_entries_of(ts, uuids).len() == http_count(ts),
        http_entries_of(ts, uuids)[http_count(ts.take(i)) as int] == (i as u8, uuids[http_count(ts.take(i)) as int]),
    decreases ts.len(),
{
    lemma_http_entries_len(ts, uuids);
    let prefix = ts.drop_last();
    lemma_http_entries_len(prefix, uuids);
    if i == ts.len() - 1 {
        assert(ts.take(i) =~= prefix);
    } else {
        assert(prefix.take(i) =~= ts.take(i));
        lemma_http_entry_of_tunnel(prefix, uuids, i);
    }
}

} // verus!
