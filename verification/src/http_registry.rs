//! Registry of UUID endpoints for HTTP tunnels: which client session and
//! which of its tunnels a UUID routes to, and when it was last used.
use vstd::prelude::*;
use crate::handshake::{entry_views, http_count, http_entries_of, is_http, lemma_http_entry_of_tunnel};
use crate::proto::TunnelSpec;

verus! {

/// What a UUID endpoint routes to.
#[derive(Debug, Clone, Copy, PartialEq, Eq, Structural)]
pub struct HttpTunnelEntry {
    /// Identifies the client session that owns the endpoint.
    pub session: usize,
    /// Index of the tunnel within that session's `Hello`.
    pub tunnel_id: u8,
    /// Milliseconds since the Unix epoch of the last registration or use.
    pub last_active_ms: u64,
}

/// What the registry map stores: for each UUID, its session, tunnel id and
/// last-activity stamp.
pub type EndpointMap = dashmap::DashMap<String, (usize, u8, u64)>;

/// The endpoints a registry map holds, keyed by the UUID's characters.
pub uninterp spec fn registry_contents(m: EndpointMap) -> Map<Seq<char>, (usize, u8, u64)>;

/// An endpoint as the registry map stores it.
pub open spec fn entry_of(t: (usize, u8, u64)) -> HttpTunnelEntry {
    HttpTunnelEntry { session: t.0, tunnel_id: t.1, last_active_ms: t.2 }
}

/// Calls `DashMap::new`. Claims that the map holds no endpoint.
#[verifier::external_body]
fn registry_map_new() -> (m: EndpointMap)
    ensures
        registry_contents(m) =~= Map::empty(),
{
    dashmap::DashMap::new()
}

/// Calls `DashMap::insert`. Claims that `uuid` maps to `value` afterwards and no
/// other UUID changes.
#[verifier::external_body]
fn registry_map_insert(m: &mut EndpointMap, uuid: String, value: (usize, u8, u64))
    ensures
        registry_contents(*final(m)) == registry_contents(*old(m)).insert(uuid@, value),
{
    m.insert(uuid, value);
}

/// Calls `DashMap::get` and copies the value it finds. Claims that the value is the
/// one `uuid` maps to, and `None` when it maps to none.
#[verifier::external_body]
fn registry_map_get(m: &EndpointMap, uuid: &str) -> (res: Option<(usize, u8, u64)>)
    ensures
        match res {
            Some(v) => registry_contents(*m).contains_key(uuid@) && registry_contents(*m)[uuid@] == v,
            None => !registry_contents(*m).contains_key(uuid@),
        },
{
    m.get(uuid).map(|r| *r.value())
}

/// Calls `DashMap::retain` with a closure that calls `keeps`. Claims that exactly the
/// endpoints that `keep` keeps remain, unchanged.
#[verifier::external_body]
fn registry_map_retain(m: &mut EndpointMap, keep: &Keep)
    ensures
        registry_contents(*final(m)) == Map::new(
            |k: Seq<char>| registry_contents(*old(m)).contains_key(k) && spec_keeps(*keep, entry_of(registry_contents(*old(m))[k])),
            |k: Seq<char>| registry_contents(*old(m))[k],
        ),
{
    m.retain(|_, v| keeps(keep, v));
}

/// UUID endpoints.
pub struct HttpRegistry {
    entries: EndpointMap,
}

/// The endpoints of `m` that belong to another session than `session`.
pub open spec fn without_session(m: Map<Seq<char>, HttpTunnelEntry>, session: usize) -> Map<
    Seq<char>,
    HttpTunnelEntry,
> {
    Map::new(|k: Seq<char>| m.contains_key(k) && m[k].session != session, |k: Seq<char>| m[k])
}

/// How long ago, in milliseconds, an entry was last active (0 if its stamp is in the future).
pub open spec fn idle_ms(e: HttpTunnelEntry, now_ms: u64) -> int {
    if now_ms >= e.last_active_ms {
        now_ms - e.last_active_ms
    } else {
        0
    }
}

/// The endpoints of `m` that were active less than `threshold_ms` ago.
pub open spec fn still_active(m: Map<Seq<char>, HttpTunnelEntry>, now_ms: u64, threshold_ms: u64) -> Map<
    Seq<char>,
    HttpTunnelEntry,
> {
    Map::new(
        |k: Seq<char>| m.contains_key(k) && idle_ms(m[k], now_ms) < threshold_ms,
        |k: Seq<char>| m[k],
    )
}

/// What `touch` makes of the endpoints `m`.
pub open spec fn touched(m: Map<Seq<char>, HttpTunnelEntry>, k: Seq<char>, now_ms: u64) -> Map<
    Seq<char>,
    HttpTunnelEntry,
> {
    if m.contains_key(k) {
        m.insert(k, HttpTunnelEntry { last_active_ms: now_ms, ..m[k] })
    } else {
        m
    }
}

/// `m` with the endpoints `(tunnel_id, uuid)` of `entries`, all of `session`, registered
/// one after the other, active at `now_ms`.
pub open spec fn with_endpoints(
    m: Map<Seq<char>, HttpTunnelEntry>,
    session: usize,
    entries: Seq<(u8, Seq<char>)>,
    now_ms: u64,
) -> Map<Seq<char>, HttpTunnelEntry>
    decreases entries.len(),
{
    if entries.len() == 0 {
        m
    } else {
        with_endpoints(m, session, entries.drop_last(), now_ms).insert(
            entries.last().1,
            HttpTunnelEntry { session, tunnel_id: entries.last().0, last_active_ms: now_ms },
        )
    }
}

impl View for HttpRegistry {
    type V = Map<Seq<char>, HttpTunnelEntry>;

    closed spec fn view(&self) -> Map<Seq<char>, HttpTunnelEntry> {
        registry_contents(self.entries).map_values(|t: (usize, u8, u64)| entry_of(t))
    }
}

impl HttpRegistry {
    /// An empty registry.
    pub fn new() -> (r: Self)
        ensures
            r@ == Map::<Seq<char>, HttpTunnelEntry>::empty(),
    {
        let r = HttpRegistry { entries: registry_map_new() };
        assert(r@ =~= Map::<Seq<char>, HttpTunnelEntry>::empty());
        r
    }

    /// Register a UUID endpoint for `tunnel_id` of `session`, active at `now_ms`.
    /// An endpoint already registered under the same UUID is replaced.
    pub fn register_with_uuid(&mut self, session: usize, tunnel_id: u8, uuid: String, now_ms: u64)
        ensures
            final(self)@ == old(self)@.insert(
                uuid@,
                HttpTunnelEntry { session, tunnel_id, last_active_ms: now_ms },
            ),
    {
        registry_map_insert(&mut self.entries, uuid, (session, tunnel_id, now_ms));
        assert(self@ =~= old(self)@.insert(uuid@, HttpTunnelEntry { session, tunnel_id, last_active_ms: now_ms }));
    }

    /// Register the HTTP endpoints `(tunnel_id, uuid)` of `session` in order, active at `now_ms`.
    pub fn register_endpoints(&mut self, session: usize, entries: &Vec<(u8, String)>, now_ms: u64)
        ensures
            final(self)@ == with_endpoints(old(self)@, session, entry_views(entries@), now_ms),
    {
        let ghost start = self@;
        let n = entries.len();
        for i in 0..n
            invariant
                n == entries@.len(),
                self@ == with_endpoints(start, session, entry_views(entries@).take(i as int), now_ms),
        {
            proof {
                let ev = entry_views(entries@);
                assert(ev.take(i as int + 1).drop_last() =~= ev.take(i as int));
            }
            self.register_with_uuid(session, entries[i].0, entries[i].1.clone(), now_ms);
        }
        proof {
            assert(entry_views(entries@).take(n as int) =~= entry_views(entries@));
        }
    }

    /// Remove every UUID endpoint that belongs to `session`.
    pub fn deregister_session(&mut self, session: usize)
        ensures
            final(self)@ == without_session(old(self)@, session),
    {
        registry_map_retain(&mut self.entries, &Keep::OtherSession(session));
        assert(self@ =~= without_session(old(self)@, session));
    }

    /// One pass of the idle reaper at `now_ms`: remove every UUID endpoint that has
    /// been idle for `timeout_secs` seconds or more.
    pub fn reap_idle(&mut self, now_ms: u64, timeout_secs: u64)
        requires
            timeout_secs * 1000 <= u64::MAX,
        ensures
            final(self)@ == still_active(old(self)@, now_ms, (timeout_secs * 1000) as u64),
    {
        let threshold_ms = timeout_secs * 1000;
        registry_map_retain(&mut self.entries, &Keep::ActiveAt(now_ms, threshold_ms));
        assert(self@ =~= still_active(old(self)@, now_ms, threshold_ms));
    }

    /// The session and tunnel that `uuid` routes to, if it is registered.
    pub fn lookup(&self, uuid: &str) -> (res: Option<(usize, u8)>)
        ensures
            match res {
                Some((session, tunnel_id)) => self@.contains_key(uuid@) && self@[uuid@].session
                    == session && self@[uuid@].tunnel_id == tunnel_id,
                None => !self@.contains_key(uuid@),
            },
    {
        match registry_map_get(&self.entries, uuid) {
            Some((session, tunnel_id, _)) => Some((session, tunnel_id)),
            None => None,
        }
    }

    /// Mark `uuid` as active at `now_ms`; nothing happens if it is not registered.
    pub fn touch(&mut self, uuid: &str, now_ms: u64)
        ensures
            final(self)@ == touched(old(self)@, uuid@, now_ms),
    {
        match registry_map_get(&self.entries, uuid) {
            Some((session, tunnel_id, _)) => {
                registry_map_insert(&mut self.entries, uuid.to_owned(), (session, tunnel_id, now_ms));
                assert(self@ =~= touched(old(self)@, uuid@, now_ms));
            },
            None => {},
        }
    }

    /// Route a request for `uuid` at `now_ms`: the session and tunnel it is registered
    /// for, marking it active; `None`, changing nothing, if it is not registered.
    pub fn route(&mut self, uuid: &str, now_ms: u64) -> (res: Option<(usize, u8)>)
        ensures
            match res {
                Some((session, tunnel_id)) => old(self)@.contains_key(uuid@) && old(self)@[uuid@].session
                    == session && old(self)@[uuid@].tunnel_id == tunnel_id,
                None => !old(self)@.contains_key(uuid@),
            },
            final(self)@ == touched(old(self)@, uuid@, now_ms),
    {
        let res = self.lookup(uuid);
        self.touch(uuid, now_ms);
        res
    }
}

/// Seconds between two passes of the idle reaper for a timeout of `timeout_secs`:
/// half the timeout, but at least ten.
pub open spec fn reaper_period_of(timeout_secs: u64) -> u64 {
    if timeout_secs / 2 >= 10 {
        timeout_secs / 2
    } else {
        10
    }
}

/// Seconds between two passes of the idle reaper: half the timeout, but at least ten.
pub fn reaper_period_secs(timeout_secs: u64) -> (p: u64)
    ensures
        p == reaper_period_of(timeout_secs),
{
    let half = timeout_secs / 2;
    if half >= 10 {
        half
    } else {
        10
    }
}

#[verifier::external_type_specification]
#[verifier::external_body]
pub struct ExSystemTime(std::time::SystemTime);

/// Calls `std::time::SystemTime::now`. Nothing is claimed of the clock's reading.
#[verifier::external_body]
fn system_time_now() -> std::time::SystemTime {
    std::time::SystemTime::now()
}

/// Calls `SystemTime::duration_since` with `UNIX_EPOCH`, turning its error (a reading
/// before the epoch) into `None`. Nothing is claimed of the duration.
#[verifier::external_body]
fn duration_since_unix_epoch(t: &std::time::SystemTime) -> Option<std::time::Duration> {
    t.duration_since(std::time::UNIX_EPOCH).ok()
}

/// Calls `Duration::as_millis`. Nothing is claimed of the result, since a `Duration`
/// is opaque here.
#[verifier::external_body]
fn duration_as_millis(d: &std::time::Duration) -> u128 {
    d.as_millis()
}

/// Milliseconds since the Unix epoch as the registry stamps them: a reading of
/// `m` milliseconds truncated to 64 bits, or 0 for a clock before the epoch.
pub open spec fn epoch_ms_of(since_epoch_ms: Option<u128>) -> u64 {
    match since_epoch_ms {
        Some(m) => m as u64,
        None => 0,
    }
}

/// The registry's stamp for a clock reading of `since_epoch_ms` milliseconds since
/// the Unix epoch (`None` for a reading before the epoch).
pub fn epoch_ms(since_epoch_ms: Option<u128>) -> (ms: u64)
    ensures
        ms == epoch_ms_of(since_epoch_ms),
{
    match since_epoch_ms {
        Some(m) => m as u64,
        None => 0,
    }
}

/// The system clock's milliseconds since the Unix epoch, or `None` if it reads
/// before the epoch.
fn clock_ms_since_epoch() -> Option<u128> {
    let now = system_time_now();
    match duration_since_unix_epoch(&now) {
        Some(d) => Some(duration_as_millis(&d)),
        None => None,
    }
}

/// Milliseconds since the Unix epoch by the system clock, truncated to 64 bits;
/// 0 if the clock reads before the epoch. That is `epoch_ms` of the clock's
/// reading; the reading itself depends on the machine's clock.
pub fn now_ms() -> u64 {
    epoch_ms(clock_ms_since_epoch())
}

/// Which entries a pass over the registry keeps.
enum Keep {
    /// Those of any other session than this one.
    OtherSession(usize),
    /// Those active, at the given time, more recently than the given threshold.
    ActiveAt(u64, u64),
}

spec fn spec_keeps(keep: Keep, e: HttpTunnelEntry) -> bool {
    match keep {
        Keep::OtherSession(session) => e.session != session,
        Keep::ActiveAt(now_ms, threshold_ms) => idle_ms(e, now_ms) < threshold_ms,
    }
}

fn keeps(keep: &Keep, e: &(usize, u8, u64)) -> (res: bool)
    ensures
        res == spec_keeps(*keep, entry_of(*e)),
{
    match keep {
        Keep::OtherSession(session) => e.0 != *session,
        Keep::ActiveAt(now_ms, threshold_ms) => now_ms.saturating_sub(e.2) < *threshold_ms,
    }
}

/// A UUID that has just been registered routes to the session and tunnel it was
/// registered for, stamped active at the registration's time, and registering it
/// changes no other UUID's route.
pub proof fn law_register_then_lookup(
    m: Map<Seq<char>, HttpTunnelEntry>,
    uuid: Seq<char>,
    session: usize,
    tunnel_id: u8,
    now_ms: u64,
    other: Seq<char>,
)
    ensures
        ({
            let r = m.insert(uuid, HttpTunnelEntry { session, tunnel_id, last_active_ms: now_ms });
            &&& r.contains_key(uuid)
            &&& r[uuid].session == session
            &&& r[uuid].tunnel_id == tunnel_id
            &&& r[uuid].last_active_ms == now_ms
            &&& other != uuid ==> (r.contains_key(other) == m.contains_key(other))
            &&& other != uuid && m.contains_key(other) ==> r[other] == m[other]
        }),
{
}

/// After a session is deregistered no UUID routes to it, and every UUID of another
/// session still routes where it did.
pub proof fn law_deregister_session(m: Map<Seq<char>, HttpTunnelEntry>, session: usize, uuid: Seq<char>)
    ensures
        without_session(m, session).contains_key(uuid) ==> without_session(m, session)[uuid].session != session,
        m.contains_key(uuid) && m[uuid].session != session ==> without_session(m, session).contains_key(uuid)
            && without_session(m, session)[uuid] == m[uuid],
{
}

/// Touching a UUID changes no route: the same UUIDs are registered, to the same
/// sessions and tunnels.
pub proof fn law_touch_keeps_routes(m: Map<Seq<char>, HttpTunnelEntry>, k: Seq<char>, now_ms: u64, uuid: Seq<char>)
    ensures
        touched(m, k, now_ms).contains_key(uuid) == m.contains_key(uuid),
        m.contains_key(uuid) ==> touched(m, k, now_ms)[uuid].session == m[uuid].session
            && touched(m, k, now_ms)[uuid].tunnel_id == m[uuid].tunnel_id,
        m.contains_key(k) ==> touched(m, k, now_ms)[k].last_active_ms == now_ms,
{
}

/// The idle reaper keeps exactly the endpoints idle for less than the threshold;
/// in particular one just registered or touched at `now_ms` survives a positive threshold.
pub proof fn law_reap_keeps_exactly_active(
    m: Map<Seq<char>, HttpTunnelEntry>,
    now_ms: u64,
    threshold_ms: u64,
    uuid: Seq<char>,
)
    ensures
        still_active(m, now_ms, threshold_ms).contains_key(uuid) <==> (m.contains_key(uuid) && idle_ms(
            m[uuid],
            now_ms,
        ) < threshold_ms),
        still_active(m, now_ms, threshold_ms).contains_key(uuid) ==> still_active(m, now_ms, threshold_ms)[uuid]
            == m[uuid],
        m.contains_key(uuid) && m[uuid].last_active_ms == now_ms && threshold_ms > 0 ==> still_active(
            m,
            now_ms,
            threshold_ms,
        ).contains_key(uuid),
{
}

/// Once a session's HTTP endpoints are registered, each endpoint's UUID routes to
/// that session and to the endpoint's tunnel, unless a later endpoint of the same
/// registration reuses the UUID.
pub proof fn law_registered_endpoints_route(
    m: Map<Seq<char>, HttpTunnelEntry>,
    session: usize,
    entries: Seq<(u8, Seq<char>)>,
    now_ms: u64,
    k: int,
)
    requires
        0 <= k < entries.len(),
        forall|j: int| k < j < entries.len() ==> (#[trigger] entries[j]).1 != entries[k].1,
    ensures
        with_endpoints(m, session, entries, now_ms).contains_key(entries[k].1),
        with_endpoints(m, session, entries, now_ms)[entries[k].1] == (HttpTunnelEntry {
            session,
            tunnel_id: entries[k].0,
            last_active_ms: now_ms,
        }),
    decreases entries.len(),
{
    if k < entries.len() - 1 {
        let shorter = entries.drop_last();
        assert forall|j: int| k < j < shorter.len() implies (#[trigger] shorter[j]).1 != shorter[k].1 by {
            assert(shorter[j] == entries[j]);
        }
        law_registered_endpoints_route(m, session, shorter, now_ms, k);
        assert(entries.last() == entries[entries.len() - 1]);
    }
}

/// When no two endpoints of a registration share a UUID (as `assign_tunnels_fresh`
/// ensures), every endpoint's UUID routes to that session and to its own tunnel.
pub proof fn law_distinct_endpoints_each_route(
    m: Map<Seq<char>, HttpTunnelEntry>,
    session: usize,
    entries: Seq<(u8, Seq<char>)>,
    now_ms: u64,
    k: int,
)
    requires
        0 <= k < entries.len(),
        forall|i: int, j: int|
            0 <= i < entries.len() && 0 <= j < entries.len() && i != j ==> (#[trigger] entries[i]).1
                != (#[trigger] entries[j]).1,
    ensures
        with_endpoints(m, session, entries, now_ms).contains_key(entries[k].1),
        with_endpoints(m, session, entries, now_ms)[entries[k].1] == (HttpTunnelEntry {
            session,
            tunnel_id: entries[k].0,
            last_active_ms: now_ms,
        }),
{
    assert forall|j: int| k < j < entries.len() implies (#[trigger] entries[j]).1 != entries[k].1 by {
        assert(entries[j].1 != entries[k].1);
    }
    law_registered_endpoints_route(m, session, entries, now_ms, k);
}

/// What the server announces is what it routes: once the HTTP endpoints that
/// `assign_tunnels` returns for `tunnels` are registered for `session`, the UUID in the
/// URL announced for each HTTP tunnel routes to that session and that tunnel
/// (unless a later HTTP tunnel drew the same UUID).
pub proof fn law_announced_urls_are_routed(
    m: Map<Seq<char>, HttpTunnelEntry>,
    session: usize,
    tunnels: Seq<TunnelSpec>,
    uuids: Seq<Seq<char>>,
    now_ms: u64,
    i: int,
)
    requires
        uuids.len() == http_count(tunnels),
        0 <= i < tunnels.len(),
        is_http(tunnels[i]),
        forall|j: int|
            http_count(tunnels.take(i)) < j < uuids.len() ==> #[trigger] uuids[j] != uuids[http_count(
                tunnels.take(i),
            ) as int],
    ensures
        ({
            let u = uuids[http_count(tunnels.take(i)) as int];
            let r = with_endpoints(m, session, http_entries_of(tunnels, uuids), now_ms);
            &&& r.contains_key(u)
            &&& r[u] == (HttpTunnelEntry { session, tunnel_id: i as u8, last_active_ms: now_ms })
        }),
{
    let k = http_count(tunnels.take(i)) as int;
    let es = http_entries_of(tunnels, uuids);
    lemma_http_entry_of_tunnel(tunnels, uuids, i);
    crate::handshake::lemma_http_entries_len(tunnels, uuids);
    assert forall|j: int| k < j < es.len() implies (#[trigger] es[j]).1 != es[k].1 by {
        assert(es[j].1 == uuids[j]);
    }
    law_registered_endpoints_route(m, session, es, now_ms, k);
}


/// When the `j`-th pass of the idle reaper runs (from 1), in milliseconds since the
/// epoch, for a reaper started at `start_ms` with a timeout of `timeout_secs`: each
/// pass follows a sleep of one period.
pub open spec fn sweep_time(start_ms: u64, timeout_secs: u64, j: nat) -> int {
    start_ms + j * (reaper_period_of(timeout_secs) * 1000)
}

/// The endpoints of `m` that are left after the first `j` passes of the idle reaper
/// started at `start_ms` with a timeout of `timeout_secs`, when nothing registers
/// or touches an endpoint in between.
pub open spec fn after_sweeps(m: Map<Seq<char>, HttpTunnelEntry>, start_ms: u64, timeout_secs: u64, j: nat) -> Map<
    Seq<char>,
    HttpTunnelEntry,
>
    decreases j,
{
    if j == 0 {
        m
    } else {
        still_active(
            after_sweeps(m, start_ms, timeout_secs, (j - 1) as nat),
            sweep_time(start_ms, timeout_secs, j) as u64,
            (timeout_secs * 1000) as u64,
        )
    }
}

/// The pass of the idle reaper started at `start_ms` that first runs when an
/// endpoint last active at `t0` has been idle for the timeout: the first `j >= 1`
/// with `sweep_time(start_ms, timeout_secs, j) >= t0 + timeout_secs * 1000`.
pub open spec fn expiring_sweep(start_ms: u64, timeout_secs: u64, t0: u64) -> nat {
    let d = t0 + timeout_secs * 1000 - start_ms;
    let p = reaper_period_of(timeout_secs) * 1000;
    if d <= 0 {
        1
    } else {
        ((d + p - 1) / p) as nat
    }
}

/// The passes of the reaper only ever remove endpoints: what is left is a part of
/// `m`, unchanged.
proof fn lemma_after_sweeps_within(
    m: Map<Seq<char>, HttpTunnelEntry>,
    start_ms: u64,
    timeout_secs: u64,
    j: nat,
    uuid: Seq<char>,
)
    ensures
        after_sweeps(m, start_ms, timeout_secs, j).contains_key(uuid) ==> m.contains_key(uuid)
            && after_sweeps(m, start_ms, timeout_secs, j)[uuid] == m[uuid],
    decreases j,
{
    if j > 0 {
        lemma_after_sweeps_within(m, start_ms, timeout_secs, (j - 1) as nat, uuid);
    }
}

/// Facts of arithmetic on the pass that expires an endpoint.
proof fn lemma_expiring_sweep_bounds(start_ms: u64, timeout_secs: u64, t0: u64)
    requires
        start_ms <= t0 + timeout_secs * 1000,
    ensures
        ({
            let k = expiring_sweep(start_ms, timeout_secs, t0);
            let e = t0 + timeout_secs * 1000;
            let p = reaper_period_of(timeout_secs) * 1000;
            &&& k >= 1
            &&& sweep_time(start_ms, timeout_secs, k) >= e
            &&& sweep_time(start_ms, timeout_secs, k) <= e + p
            &&& forall|j: nat| 1 <= j < k ==> #[trigger] sweep_time(start_ms, timeout_secs, j) < e
        }),
{
    let d = t0 + timeout_secs * 1000 - start_ms;
    let p = reaper_period_of(timeout_secs) * 1000;
    let k = expiring_sweep(start_ms, timeout_secs, t0);
    assert(p >= 10000);
    if d > 0 {
        assert(k * p >= d && (k - 1) * p < d && k >= 1) by (nonlinear_arith)
            requires
                d > 0,
                p > 0,
                k == (d + p - 1) / p,
        {
            let q = (d + p - 1) / p;
            let r = (d + p - 1) % p;
            assert(d + p - 1 == q * p + r);
        }
        assert forall|j: nat| 1 <= j < k implies #[trigger] sweep_time(start_ms, timeout_secs, j) < t0
            + timeout_secs * 1000 by {
            assert(j * p <= (k - 1) * p) by (nonlinear_arith)
                requires
                    j < k,
                    p > 0,
            ;
        }
        assert(k * p <= d + p - 1) by (nonlinear_arith)
            requires
                p > 0,
                k == (d + p - 1) / p,
                d > 0,
        ;
    }
}

/// The idle reaper as the server runs it (a pass every `reaper_period_secs` seconds,
/// each removing what has been idle for `timeout_secs` seconds or more) removes an
/// endpoint left alone since `t0` no later than one period after it has been idle
/// for the timeout, and never earlier than that: it survives every pass before, and
/// every pass at a time when it has been idle for less than the timeout keeps it.
/// The reaper started at `start_ms`, no later than the endpoint's expiry, and its
/// passes up to that bound have times that fit in 64 bits.
pub proof fn law_reaper_removes_idle_within_a_period(
    m: Map<Seq<char>, HttpTunnelEntry>,
    uuid: Seq<char>,
    t0: u64,
    timeout_secs: u64,
    start_ms: u64,
    j: nat,
    now_ms: u64,
)
    requires
        m.contains_key(uuid),
        m[uuid].last_active_ms == t0,
        start_ms <= t0 + timeout_secs * 1000,
        t0 + timeout_secs * 1000 + reaper_period_of(timeout_secs) * 1000 <= u64::MAX,
    ensures
        ({
            let k = expiring_sweep(start_ms, timeout_secs, t0);
            let e = t0 + timeout_secs * 1000;
            &&& e <= sweep_time(start_ms, timeout_secs, k) <= e + reaper_period_of(timeout_secs) * 1000
            &&& !after_sweeps(m, start_ms, timeout_secs, k).contains_key(uuid)
            &&& j >= k ==> !after_sweeps(m, start_ms, timeout_secs, j).contains_key(uuid)
            &&& j < k && timeout_secs > 0 ==> after_sweeps(m, start_ms, timeout_secs, j).contains_key(uuid)
        }),
        t0 <= now_ms < t0 + timeout_secs * 1000 ==> still_active(m, now_ms, (timeout_secs * 1000) as u64).contains_key(
            uuid,
        ),
{
    lemma_expiring_sweep_bounds(start_ms, timeout_secs, t0);
    let k = expiring_sweep(start_ms, timeout_secs, t0);
    if j < k && timeout_secs > 0 {
        lemma_reaper_keeps_until(m, uuid, t0, timeout_secs, start_ms, j);
    }
    lemma_reaper_removed_from(m, uuid, t0, timeout_secs, start_ms, j);
    lemma_reaper_removed_from(m, uuid, t0, timeout_secs, start_ms, k);
}

/// The endpoint survives every pass before its expiring one (for a positive timeout).
proof fn lemma_reaper_keeps_until(
    m: Map<Seq<char>, HttpTunnelEntry>,
    uuid: Seq<char>,
    t0: u64,
    timeout_secs: u64,
    start_ms: u64,
    j: nat,
)
    requires
        m.contains_key(uuid),
        m[uuid].last_active_ms == t0,
        start_ms <= t0 + timeout_secs * 1000,
        t0 + timeout_secs * 1000 + reaper_period_of(timeout_secs) * 1000 <= u64::MAX,
        j < expiring_sweep(start_ms, timeout_secs, t0),
        timeout_secs > 0,
    ensures
        after_sweeps(m, start_ms, timeout_secs, j).contains_key(uuid),
        after_sweeps(m, start_ms, timeout_secs, j)[uuid] == m[uuid],
    decreases j,
{
    if j > 0 {
        lemma_reaper_keeps_until(m, uuid, t0, timeout_secs, start_ms, (j - 1) as nat);
        lemma_expiring_sweep_bounds(start_ms, timeout_secs, t0);
        let t = sweep_time(start_ms, timeout_secs, j);
        assert(t < t0 + timeout_secs * 1000);
        assert(t >= 0);
        assert(idle_ms(m[uuid], t as u64) < (timeout_secs * 1000) as u64);
    }
}

/// From its expiring pass on, the endpoint is gone.
proof fn lemma_reaper_removed_from(
    m: Map<Seq<char>, HttpTunnelEntry>,
    uuid: Seq<char>,
    t0: u64,
    timeout_secs: u64,
    start_ms: u64,
    j: nat,
)
    requires
        m.contains_key(uuid),
        m[uuid].last_active_ms == t0,
        start_ms <= t0 + timeout_secs * 1000,
        t0 + timeout_secs * 1000 + reaper_period_of(timeout_secs) * 1000 <= u64::MAX,
    ensures
        j >= expiring_sweep(start_ms, timeout_secs, t0) ==> !after_sweeps(m, start_ms, timeout_secs, j).contains_key(uuid),
    decreases j,
{
    let k = expiring_sweep(start_ms, timeout_secs, t0);
    lemma_expiring_sweep_bounds(start_ms, timeout_secs, t0);
    if j > k {
        lemma_reaper_removed_from(m, uuid, t0, timeout_secs, start_ms, (j - 1) as nat);
    } else if j == k {
        lemma_after_sweeps_within(m, start_ms, timeout_secs, (j - 1) as nat, uuid);
        let t = sweep_time(start_ms, timeout_secs, j);
        assert(t <= u64::MAX);
        assert(t >= t0 + timeout_secs * 1000);
    }
}

} // verus!
