//! Table of the open streams of one control connection, keyed by stream id.
use vstd::prelude::*;

verus! {

#[verifier::external_type_specification]
#[verifier::external_body]
#[verifier::reject_recursive_types(K)]
#[verifier::reject_recursive_types(V)]
#[verifier::reject_recursive_types(S)]
pub struct ExDashMap<K, V, S>(dashmap::DashMap<K, V, S>);

#[verifier::external_type_specification]
#[verifier::external_body]
#[verifier::reject_recursive_types(T)]
pub struct ExSender<T>(tokio::sync::mpsc::Sender<T>);

/// One half of a bidirectional stream: bytes going toward the stream's local or
/// public end.
pub type StreamTx = tokio::sync::mpsc::Sender<Vec<u8>>;

/// What the stream map stores: the sender of each stream id.
pub type StreamMap = dashmap::DashMap<u32, StreamTx>;

/// The sender stored for each stream id that the stream map holds.
pub uninterp spec fn stream_senders(m: StreamMap) -> Map<u32, StreamTx>;

/// Calls `DashMap::new`. Claims that the map holds no stream.
#[verifier::external_body]
fn stream_map_new() -> (m: StreamMap)
    ensures
        stream_senders(m) =~= Map::empty(),
{
    dashmap::DashMap::new()
}

/// Calls `DashMap::insert`. Claims that `stream_id` holds `tx` afterwards and no other
/// id changes.
#[verifier::external_body]
fn stream_map_insert(m: &mut StreamMap, stream_id: u32, tx: StreamTx)
    ensures
        stream_senders(*final(m)) == stream_senders(*old(m)).insert(stream_id, tx),
{
    m.insert(stream_id, tx);
}

/// Calls `DashMap::contains_key`. Claims that the answer is whether `stream_id` is held.
#[verifier::external_body]
fn stream_map_contains(m: &StreamMap, stream_id: u32) -> (res: bool)
    ensures
        res == stream_senders(*m).contains_key(stream_id),
{
    m.contains_key(&stream_id)
}

/// Calls `DashMap::get` and clones the sender it finds. Claims that a sender comes
/// back exactly when `stream_id` is held, and that it is the one stored for it: a
/// `Sender` clone shares the stored sender's channel, so it stands for the same
/// sender here.
#[verifier::external_body]
fn stream_map_get(m: &StreamMap, stream_id: u32) -> (res: Option<StreamTx>)
    ensures
        match res {
            Some(tx) => stream_senders(*m).contains_key(stream_id) && tx == stream_senders(*m)[stream_id],
            None => !stream_senders(*m).contains_key(stream_id),
        },
{
    m.get(&stream_id).map(|r| r.value().clone())
}

/// Calls `DashMap::remove`. Claims that `stream_id` is no longer held and no other
/// id changes.
#[verifier::external_body]
fn stream_map_remove(m: &mut StreamMap, stream_id: u32)
    ensures
        stream_senders(*final(m)) == stream_senders(*old(m)).remove(stream_id),
{
    m.remove(&stream_id);
}

/// Calls `DashMap::clear`. Claims that no stream is held afterwards.
#[verifier::external_body]
fn stream_map_clear(m: &mut StreamMap)
    ensures
        stream_senders(*final(m)) =~= Map::empty(),
{
    m.clear();
}

/// Open streams, each with the sender that carries bytes toward its end.
pub struct StreamTable {
    streams: StreamMap,
}

impl View for StreamTable {
    type V = Map<u32, StreamTx>;

    closed spec fn view(&self) -> Map<u32, StreamTx> {
        stream_senders(self.streams)
    }
}

impl StreamTable {
    /// A table with no streams.
    pub fn new() -> (t: Self)
        ensures
            t@ == Map::<u32, StreamTx>::empty(),
    {
        StreamTable { streams: stream_map_new() }
    }

    /// Register stream `stream_id` with sender `tx`, replacing any earlier stream of
    /// that id.
    pub fn insert(&mut self, stream_id: u32, tx: StreamTx)
        ensures
            final(self)@ == old(self)@.insert(stream_id, tx),
    {
        stream_map_insert(&mut self.streams, stream_id, tx);
    }

    /// The sender of stream `stream_id`, if it is open.
    pub fn get(&self, stream_id: u32) -> (res: Option<StreamTx>)
        ensures
            match res {
                Some(tx) => self@.contains_key(stream_id) && tx == self@[stream_id],
                None => !self@.contains_key(stream_id),
            },
    {
        stream_map_get(&self.streams, stream_id)
    }

    /// Whether stream `stream_id` is open.
    pub fn contains(&self, stream_id: u32) -> (res: bool)
        ensures
            res == self@.contains_key(stream_id),
    {
        stream_map_contains(&self.streams, stream_id)
    }

    /// Forget stream `stream_id`; nothing happens if it is not open.
    pub fn remove(&mut self, stream_id: u32)
        ensures
            final(self)@ == old(self)@.remove(stream_id),
    {
        stream_map_remove(&mut self.streams, stream_id);
    }

    /// Forget every stream.
    pub fn clear(&mut self)
        ensures
            final(self)@ == Map::<u32, StreamTx>::empty(),
    {
        stream_map_clear(&mut self.streams);
    }
}

} // verus!
