//! The requests that the probe index and the partitions exchange.

use vstd::prelude::*;

verus! {

/// A request for the latest payload of the probe with this key.
pub struct LatestRequested(pub String);

/// A request to write `data` at byte `offset` of the data file.
pub struct WriteAtRequested {
    pub offset: u64,
    pub data: Vec<u8>,
}

/// A request to store `value` as the latest payload of the probe `key`.
pub struct WriteRequested {
    pub key: String,
    pub value: String,
}

} // verus!
