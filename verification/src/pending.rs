//! Forwarded connections that have been accepted on a forwarding port and
//! wait for the client to claim them, keyed by connection id.
use dashmap::DashMap;
use tokio::net::TcpStream;
use vstd::prelude::*;

verus! {

#[verifier::external_type_specification]
#[verifier::external_body]
pub struct ExTcpStream(TcpStream);

#[verifier::external_type_specification]
#[verifier::external_body]
#[verifier::reject_recursive_types(K)]
#[verifier::reject_recursive_types(V)]
#[verifier::reject_recursive_types(S)]
pub struct ExDashMap<K, V, S>(DashMap<K, V, S>);

/// The streams a map of pending streams holds, by connection id.
pub uninterp spec fn stream_map(map: DashMap<u128, TcpStream>) -> Map<u128, TcpStream>;

/// Calls `DashMap::new`. Claimed: the new map holds no key.
#[verifier::external_body]
fn map_new() -> (map: DashMap<u128, TcpStream>)
    ensures
        stream_map(map).dom() == Set::<u128>::empty(),
{
    DashMap::new()
}

/// Calls `DashMap::insert`. Claimed, from its source: afterwards the map
/// holds `stream` under `id` (an occupied entry has its value replaced, a
/// vacant one is filled) and every other entry as before; the previous
/// stream under the key is returned, if there was one.
#[verifier::external_body]
fn map_insert(map: &mut DashMap<u128, TcpStream>, id: u128, stream: TcpStream) -> (previous:
    Option<TcpStream>)
    ensures
        stream_map(*final(map)) == stream_map(*old(map)).insert(id, stream),
        stream_map(*final(map)).dom().finite(),
        previous is Some <==> stream_map(*old(map)).contains_key(id),
        previous matches Some(p) ==> p == stream_map(*old(map))[id],
{
    map.insert(id, stream)
}

/// Calls `DashMap::remove`. Claimed, from its source: the entry for the key,
/// with that key and the stream stored under it, is returned exactly when the
/// map held one, and only that entry is gone from the map afterwards. A map
/// holds finitely many entries, no more than `usize::MAX` (its `len` is a
/// `usize` count of the entries in its shards).
#[verifier::external_body]
fn map_remove(map: &mut DashMap<u128, TcpStream>, id: u128) -> (entry: Option<(u128, TcpStream)>)
    ensures
        stream_map(*final(map)) == stream_map(*old(map)).remove(id),
        stream_map(*old(map)).dom().finite(),
        stream_map(*old(map)).dom().len() <= usize::MAX,
        entry is Some <==> stream_map(*old(map)).contains_key(id),
        entry matches Some(e) ==> e.0 == id && e.1 == stream_map(*old(map))[id],
{
    map.remove(&id)
}

/// Table of forwarded streams waiting for the client's `Accept`.
pub struct TunnelStreams {
    streams: DashMap<u128, TcpStream>,
}

impl TunnelStreams {
    /// The streams waiting to be claimed, by connection id.
    pub closed spec fn streams(&self) -> Map<u128, TcpStream> {
        stream_map(self.streams)
    }

    /// Ids of the streams waiting to be claimed.
    pub open spec fn ids(&self) -> Set<u128> {
        self.streams().dom()
    }

    /// An empty table.
    pub fn new() -> (t: Self)
        ensures
            t.ids() == Set::<u128>::empty(),
    {
        TunnelStreams { streams: map_new() }
    }

    /// Stores `stream` under `id`, replacing any stream stored under it before.
    pub fn insert(&mut self, id: u128, stream: TcpStream)
        ensures
            final(self).streams() == old(self).streams().insert(id, stream),
    {
        let _previous = map_insert(&mut self.streams, id, stream);
    }

    /// Whether a stream is pending under `id`; the table is left as it was.
    /// The table holds finitely many streams, no more than `usize::MAX`.
    pub fn holds(&mut self, id: u128) -> (b: bool)
        ensures
            b == old(self).ids().contains(id),
            final(self).streams() == old(self).streams(),
            old(self).ids().finite(),
            old(self).ids().len() <= usize::MAX,
    {
        match map_remove(&mut self.streams, id) {
            Some((key, stream)) => {
                let _none = map_insert(&mut self.streams, key, stream);
                assert(self.streams() =~= old(self).streams());
                true
            },
            None => false,
        }
    }

    /// Takes the stream stored under `id` out of the table, if there is one.
    pub fn remove(&mut self, id: u128) -> (entry: Option<(u128, TcpStream)>)
        ensures
            entry is Some <==> old(self).ids().contains(id),
            entry matches Some(e) ==> e.0 == id && e.1 == old(self).streams()[id],
            final(self).streams() == old(self).streams().remove(id),
    {
        map_remove(&mut self.streams, id)
    }
}

} // verus!
