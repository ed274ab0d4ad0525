//! The in-memory store of the latest payload of each probe, and the requests
//! that reach it.

use crate::fx_map::{
    empty_payload_map, payload_map_contents, payload_map_get, payload_map_insert,
    payload_map_new, PayloadMap,
};
use vstd::prelude::*;

verus! {

/// A store of values by key.
pub trait Database<K, V> {
    fn get(&self, key: K) -> Option<V>;

    fn put(&mut self, key: K, value: V);
}

/// The latest payload of each probe, kept in memory.
pub struct Tenken {
    cache: PayloadMap,
}

impl Tenken {
    /// The payload of each probe.
    pub closed spec fn spec_cache(&self) -> Map<Seq<char>, Seq<char>> {
        payload_map_contents(self.cache)
    }

    /// Answers a request for a probe's latest payload.
    pub fn handle_request(&self, msg: ProbeRequestReceived) -> (r: Result<Option<String>, TenkenError>)
        ensures
            match r {
                Ok(Some(v)) => self.spec_cache().contains_key(msg.spec_probe_id()) && v@
                    == self.spec_cache()[msg.spec_probe_id()],
                Ok(None) => !self.spec_cache().contains_key(msg.spec_probe_id()),
                Err(_) => false,
            },
    {
        Ok(self.get(msg.probe_id))
    }

    /// Stores a payload that arrived for a probe.
    pub fn handle_payload(&mut self, msg: ProbePayloadReceived) -> (r: Result<(), TenkenError>)
        ensures
            r is Ok,
            final(self).spec_cache() == old(self).spec_cache().insert(
                msg.spec_probe_id(),
                msg.spec_payload(),
            ),
    {
        self.put(msg.probe_id, msg.payload);
        Ok(())
    }
}

impl Default for Tenken {
    fn default() -> (r: Self)
        ensures
            r.spec_cache() == empty_payload_map(),
    {
        Tenken { cache: payload_map_new() }
    }
}

impl Database<String, String> for Tenken {
    fn get(&self, key: String) -> (r: Option<String>)
        ensures
            match r {
                Some(v) => self.spec_cache().contains_key(key@) && v@ == self.spec_cache()[key@],
                None => !self.spec_cache().contains_key(key@),
            },
    {
        payload_map_get(&self.cache, &key)
    }

    fn put(&mut self, key: String, value: String)
        ensures
            final(self).spec_cache() == old(self).spec_cache().insert(key@, value@),
    {
        payload_map_insert(&mut self.cache, key, value);
    }
}

/// Read after write: the payload stored last for a probe is the one read
/// back for it, and storing for one probe leaves every other probe's payload
/// as it was.
pub proof fn lemma_get_after_put(
    cache: Map<Seq<char>, Seq<char>>,
    key: Seq<char>,
    value: Seq<char>,
    other: Seq<char>,
)
    ensures
        cache.insert(key, value).contains_key(key),
        cache.insert(key, value)[key] == value,
        other != key ==> (cache.insert(key, value).contains_key(other) == cache.contains_key(
            other,
        )),
        other != key && cache.contains_key(other) ==> cache.insert(key, value)[other]
            == cache[other],
{
}

/// The error of a store request.
#[derive(Debug)]
pub enum TenkenError {
    GenericError,
}

/// A payload that arrived for a probe.
pub struct ProbePayloadReceived {
    probe_id: String,
    payload: String,
}

impl ProbePayloadReceived {
    pub closed spec fn spec_probe_id(&self) -> Seq<char> {
        self.probe_id@
    }

    pub closed spec fn spec_payload(&self) -> Seq<char> {
        self.payload@
    }

    pub fn new(probe_id: String, payload: String) -> (r: Self)
        ensures
            r.spec_probe_id() == probe_id@,
            r.spec_payload() == payload@,
    {
        ProbePayloadReceived { probe_id, payload }
    }
}

/// A request for a probe's latest payload.
pub struct ProbeRequestReceived {
    probe_id: String,
}

impl ProbeRequestReceived {
    pub closed spec fn spec_probe_id(&self) -> Seq<char> {
        self.probe_id@
    }

    pub fn new(probe_id: String) -> (r: Self)
        ensures
            r.spec_probe_id() == probe_id@,
    {
        ProbeRequestReceived { probe_id }
    }
}

} // verus!
