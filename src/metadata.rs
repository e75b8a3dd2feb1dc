//! The peer metadata cache: the latest descriptor seen for each local peer,
//! used only to enrich outgoing reports. Losing it costs nothing but one fetch.

use vstd::prelude::*;
use dashmap::DashMap;
use crate::wire::BackendPeer;

verus! {

#[verifier::external_type_specification]
#[verifier::external_body]
#[verifier::reject_recursive_types(K)]
#[verifier::reject_recursive_types(V)]
#[verifier::reject_recursive_types(S)]
pub struct ExDashMap<K, V, S>(DashMap<K, V, S>);

/// What a descriptor map holds: local peer id to descriptor.
pub uninterp spec fn cached_descriptors(m: DashMap<i32, BackendPeer>) -> Map<i32, BackendPeer>;

/// The map with no entries.
pub open spec fn no_descriptors() -> Map<i32, BackendPeer> {
    Map::empty()
}

/// Relies on `DashMap::new`: a map with no entries.
#[verifier::external_body]
fn new_descriptor_map() -> (r: DashMap<i32, BackendPeer>)
    ensures
        cached_descriptors(r) == no_descriptors(),
{
    DashMap::new()
}

/// Relies on `DashMap::insert`: the key maps to the value afterwards, any
/// earlier value replaced, other keys untouched.
#[verifier::external_body]
fn insert_descriptor(m: &mut DashMap<i32, BackendPeer>, key: i32, value: BackendPeer)
    ensures
        cached_descriptors(*final(m)) == cached_descriptors(*old(m)).insert(key, value),
{
    m.insert(key, value);
}

/// Relies on `DashMap::get`: the value stored under the key, if any, here cloned
/// out of the read guard (a derived `Clone`, which copies every field).
#[verifier::external_body]
fn get_descriptor(m: &DashMap<i32, BackendPeer>, key: i32) -> (r: Option<BackendPeer>)
    ensures
        r == if cached_descriptors(*m).contains_key(key) {
            Some(cached_descriptors(*m)[key])
        } else {
            None
        },
{
    m.get(&key).map(|entry| entry.value().clone())
}

/// Latest descriptor per local peer id.
pub struct PeerMetadataCache {
    map: DashMap<i32, BackendPeer>,
}

impl View for PeerMetadataCache {
    type V = Map<i32, BackendPeer>;

    closed spec fn view(&self) -> Map<i32, BackendPeer> {
        cached_descriptors(self.map)
    }
}

impl PeerMetadataCache {
    pub fn new() -> (c: PeerMetadataCache)
        ensures
            c@ == no_descriptors(),
    {
        PeerMetadataCache { map: new_descriptor_map() }
    }

    /// Replaces what is cached for `peer_id`.
    pub fn put(&mut self, peer_id: i32, descriptor: BackendPeer)
        ensures
            final(self)@ == old(self)@.insert(peer_id, descriptor),
    {
        insert_descriptor(&mut self.map, peer_id, descriptor);
    }

    /// What is cached for `peer_id`.
    pub fn get(&self, peer_id: i32) -> (r: Option<BackendPeer>)
        ensures
            r == if self@.contains_key(peer_id) {
                Some(self@[peer_id])
            } else {
                None
            },
    {
        get_descriptor(&self.map, peer_id)
    }
}

} // verus!
