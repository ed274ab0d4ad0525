//! What a partition holds: a key, the timestamp of its latest payload, and
//! that payload.

use vstd::prelude::*;

verus! {

/// The key and timestamp of a partition, without its value.
#[derive(Debug)]
pub struct EntryPreface<K> {
    pub key: K,
    pub timestamp: u64,
}

/// A whole partition: key, timestamp and value.
#[derive(Debug)]
pub struct Entry<K, V> {
    pub key: K,
    pub timestamp: u64,
    pub value: V,
}

/// A new timestamp and value for a partition whose key stays.
#[derive(Debug)]
pub struct EntryUpdate<V> {
    pub timestamp: u64,
    pub value: V,
}

impl<K, V> From<Entry<K, V>> for EntryUpdate<V> {
    fn from(entry: Entry<K, V>) -> (r: Self) {
        EntryUpdate { timestamp: entry.timestamp, value: entry.value }
    }
}

impl<K, V> vstd::std_specs::convert::FromSpecImpl<Entry<K, V>> for EntryUpdate<V> {
    open spec fn obeys_from_spec() -> bool {
        true
    }

    open spec fn from_spec(entry: Entry<K, V>) -> Self {
        EntryUpdate { timestamp: entry.timestamp, value: entry.value }
    }
}

} // verus!
