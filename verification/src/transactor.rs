//! The owner of one partition: it remembers the probe key and timestamp that
//! the partition holds and decides which writes reach it.

use crate::entry::{Entry, EntryUpdate};
use crate::indexed_file_handle::{
    decode_preface, decode_value, entry_bytes_of, key_size_after_key, preface_fits,
    update_bytes_of, update_offset, IndexedFileHandle,
};
use crate::messages::{LatestRequested, WriteAtRequested};
use crate::partition::{is_valid_key_size, key_field, HEADER_SIZE, PARTITION_SIZE};
use crate::partition_laws::{
    apply_write, key_fits, lemma_update_then_read, lemma_write_then_read, value_fits_after_key,
};
use crate::payload::{
    get_timestamp, gjson_u64, selects_unclosed_string, stamped_payload, transmission_time_path,
    unix_time_millis, with_received_time_at,
};
use vstd::prelude::*;
use vstd::utf8::*;

verus! {

/// The view of a transactor's state: key and timestamp of the payload that
/// its partition holds.
pub open spec fn state_view(state: Option<(String, u64)>) -> Option<(Seq<char>, u64)> {
    match state {
        Some((k, t)) => Some((k@, t)),
        None => None,
    }
}

/// Whether a payload for `key` with timestamp `timestamp` is stored: into a
/// vacant partition always; into an occupied one only for the same key and a
/// newer timestamp.
pub open spec fn store_accepts(
    state: Option<(Seq<char>, u64)>,
    key: Seq<char>,
    timestamp: u64,
) -> bool {
    match state {
        None => true,
        Some((k, t)) => key == k && timestamp > t,
    }
}

/// The state after a store of `key` at `timestamp`.
pub open spec fn state_after_store(
    state: Option<(Seq<char>, u64)>,
    key: Seq<char>,
    timestamp: u64,
) -> Option<(Seq<char>, u64)> {
    if store_accepts(state, key, timestamp) {
        Some((key, timestamp))
    } else {
        state
    }
}

/// Where within the partition an accepted store writes, and what: a whole
/// entry into a vacant partition, an update just after the key otherwise.
pub open spec fn planned_write(
    state: Option<(Seq<char>, u64)>,
    key_size: Option<u8>,
    key: Seq<char>,
    timestamp: u64,
    value: Seq<char>,
) -> (int, Seq<u8>) {
    match state {
        None => (0, entry_bytes_of(key, timestamp, value)),
        Some(_) => (update_offset(key_size), update_bytes_of(timestamp, value)),
    }
}

/// Whether a partition's bytes agree with what its owner remembers: the
/// preface reads back as the owner's state, and the handle remembers the
/// partition's key size.
pub open spec fn partition_agrees(
    image: Seq<u8>,
    state: Option<(Seq<char>, u64)>,
    key_size: Option<u8>,
) -> bool {
    match state {
        None => true,
        Some(s) => decode_preface(image) == Some(s) && key_size == Some(image[0]),
    }
}

/// A store never rolls a partition back: an occupied partition keeps its key
/// and its timestamp never decreases.
pub proof fn lemma_store_never_rolls_back(
    state: Option<(Seq<char>, u64)>,
    key: Seq<char>,
    timestamp: u64,
)
    requires
        state is Some,
    ensures
        state_after_store(state, key, timestamp) matches Some((k, t)) && k == state.unwrap().0
            && t >= state.unwrap().1,
{
}

/// A payload for the key of an occupied partition that is not newer than
/// the one it holds is dropped; so is a payload for another key.
pub proof fn lemma_stale_or_foreign_store_dropped(
    state: Option<(Seq<char>, u64)>,
    key: Seq<char>,
    timestamp: u64,
)
    requires
        state matches Some((k, t)) && (key != k || timestamp <= t),
    ensures
        !store_accepts(state, key, timestamp),
        state_after_store(state, key, timestamp) == state,
{
}

/// A vacant partition takes the first payload of any probe, whatever its
/// transmission time: the store is accepted, the owner's state becomes the
/// probe's key at that timestamp, and the write is the whole entry at the
/// start of the partition.
pub proof fn lemma_vacant_partition_takes_first_payload(
    key_size: Option<u8>,
    key: Seq<char>,
    timestamp: u64,
    value: Seq<char>,
)
    ensures
        store_accepts(None, key, timestamp),
        state_after_store(None, key, timestamp) == Some((key, timestamp)),
        planned_write(None, key_size, key, timestamp, value) == (
        0int,
        entry_bytes_of(key, timestamp, value),
    ),
{
}

/// A newer payload for the key that an occupied partition holds is taken:
/// the state moves on to its timestamp, and the write is an update just
/// after the key.
pub proof fn lemma_newer_payload_for_same_key_taken(
    state: Option<(Seq<char>, u64)>,
    key_size: Option<u8>,
    key: Seq<char>,
    timestamp: u64,
    value: Seq<char>,
)
    requires
        state matches Some((k, t)) && k == key && timestamp > t,
    ensures
        store_accepts(state, key, timestamp),
        state_after_store(state, key, timestamp) == Some((key, timestamp)),
        planned_write(state, key_size, key, timestamp, value) == (
        update_offset(key_size),
        update_bytes_of(timestamp, value),
    ),
{
}

/// The key bytes of a partition whose preface reads back are the encoding of
/// its key, so the key's length in bytes is the partition's key size.
pub proof fn lemma_preface_key_size(image: Seq<u8>)
    requires
        image.len() >= HEADER_SIZE,
        decode_preface(image) is Some,
    ensures
        encode_utf8(decode_preface(image).unwrap().0).len() == image[0],
        is_valid_key_size(image[0]),
{
    let k = image[0] as int;
    decode_utf8_encode_utf8(key_field(image, k));
}

/// What a read gives back after an accepted store: once the write that the
/// store returns is applied to a partition that agrees with its owner, the
/// partition reads back the stored key, timestamp and value, and agrees with
/// the owner's new state.
pub proof fn lemma_accepted_store_reads_back(
    image: Seq<u8>,
    state: Option<(Seq<char>, u64)>,
    key_size: Option<u8>,
    key: Seq<char>,
    timestamp: u64,
    value: Seq<char>,
)
    requires
        image.len() == PARTITION_SIZE,
        partition_agrees(image, state, key_size),
        store_accepts(state, key, timestamp),
        key_fits(key),
        value_fits_after_key(encode_utf8(key).len() as int, value),
    ensures
        ({
            let (at, data) = planned_write(state, key_size, key, timestamp, value);
            let after = apply_write(image, at, data);
            let new_key_size = match state {
                None => key_size_after_key(encode_utf8(key).len()),
                Some(_) => key_size,
            };
            &&& partition_agrees(after, Some((key, timestamp)), new_key_size)
            &&& decode_value(after, encode_utf8(key).len() as int) == Some(value)
        }),
{
    let k = encode_utf8(key).len();
    match state {
        None => {
            lemma_write_then_read(image, key, timestamp, value);
            vstd::arithmetic::div_mod::lemma_small_mod(k, 256);
        },
        Some((sk, st)) => {
            lemma_preface_key_size(image);
            assert(sk == key);
            lemma_update_then_read(image, timestamp, value);
        },
    }
}

/// The owner of one partition.
pub struct Transactor {
    pub state: Option<(String, u64)>,
    file: IndexedFileHandle,
    received: Ghost<Option<u128>>,
}

impl Transactor {
    /// The key and timestamp of the payload that the partition holds.
    pub closed spec fn spec_state(&self) -> Option<(Seq<char>, u64)> {
        state_view(self.state)
    }

    /// The clock reading, in milliseconds since the epoch, that the latest
    /// store took to stamp its payload; `None` where that reading was before
    /// the epoch, or where no store has read the clock yet.
    pub closed spec fn spec_received(&self) -> Option<u128> {
        self.received@
    }

    pub closed spec fn wf(&self) -> bool {
        self.file.wf()
    }

    /// Byte offset of the partition in the data file.
    pub closed spec fn spec_offset(&self) -> u64 {
        self.file.spec_offset()
    }

    /// The key size that the partition's handle remembers.
    pub closed spec fn spec_key_size(&self) -> Option<u8> {
        self.file.spec_key_size()
    }

    /// The owner of the partition of `file`, with the state that the
    /// partition's header holds; `header` is `None` where it could not be read.
    pub fn new(file: IndexedFileHandle, header: Option<&[u8]>) -> (r: Self)
        requires
            file.wf(),
            header matches Some(h) ==> preface_fits(h@),
        ensures
            r.wf(),
            r.spec_offset() == file.spec_offset(),
            r.spec_state() == match header {
                Some(h) => decode_preface(h@),
                None => None,
            },
            r.spec_key_size() == match header {
                Some(h) => if is_valid_key_size(h@[0]) {
                    Some(h@[0])
                } else {
                    None::<u8>
                },
                None => file.spec_key_size(),
            },
            header matches Some(h) ==> partition_agrees(h@, r.spec_state(), r.spec_key_size()),
            r.spec_received() is None,
    {
        let mut file = file;
        let state = match header {
            Some(h) => match file.read_preface_from_buffer(h) {
                Some(p) => Some((p.key, p.timestamp)),
                None => None,
            },
            None => None,
        };
        Transactor { state, file, received: Ghost(None) }
    }

    /// The key and timestamp of the payload that the partition holds.
    pub fn state(&self) -> (r: &Option<(String, u64)>)
        ensures
            state_view(*r) == self.spec_state(),
    {
        &self.state
    }

    /// The partition's handle.
    pub fn file(&self) -> (r: &IndexedFileHandle)
        requires
            self.wf(),
        ensures
            r.wf(),
            r.spec_offset() == self.spec_offset(),
            r.spec_key_size() == self.spec_key_size(),
    {
        &self.file
    }

    /// Sets the state to `key` at `timestamp`.
    pub fn restore(&mut self, key: String, timestamp: u64)
        requires
            old(self).wf(),
        ensures
            final(self).wf(),
            final(self).spec_state() == Some((key@, timestamp)),
            final(self).spec_offset() == old(self).spec_offset(),
            final(self).spec_key_size() == old(self).spec_key_size(),
            final(self).spec_received() == old(self).spec_received(),
    {
        self.state = Some((key, timestamp));
    }

    /// Stores `value`, received for `key` with transmission time `timestamp`:
    /// if the store is accepted, the state moves on and the result is the
    /// write that brings the partition along; otherwise nothing changes.
    pub fn store_stamped(&mut self, key: String, timestamp: u64, value: String) -> (r: Option<
        WriteAtRequested,
    >)
        requires
            old(self).wf(),
        ensures
            final(self).wf(),
            final(self).spec_offset() == old(self).spec_offset(),
            final(self).spec_received() == old(self).spec_received(),
            final(self).spec_state() == state_after_store(
                old(self).spec_state(),
                key@,
                timestamp,
            ),
            store_accepts(old(self).spec_state(), key@, timestamp) ==> {
                let (at, data) = planned_write(
                    old(self).spec_state(),
                    old(self).spec_key_size(),
                    key@,
                    timestamp,
                    value@,
                );
                &&& r matches Some(w)
                &&& w.offset == old(self).spec_offset() + at
                &&& w.data@ == data
                &&& final(self).spec_key_size() == match old(self).spec_state() {
                    None => key_size_after_key(encode_utf8(key@).len()),
                    Some(_) => old(self).spec_key_size(),
                }
            },
            !store_accepts(old(self).spec_state(), key@, timestamp) ==> {
                &&& r is None
                &&& final(self).spec_key_size() == old(self).spec_key_size()
            },
    {
        let accepted = match &self.state {
            None => true,
            Some((current_key, current_timestamp)) => key == *current_key && timestamp
                > *current_timestamp,
        };
        if !accepted {
            return None;
        }
        match self.state {
            None => {
                self.state = Some((key.clone(), timestamp));
                Some(self.file.write(Entry { key, timestamp, value }))
            },
            Some(_) => {
                self.state = Some((key, timestamp));
                Some(self.file.write_update(EntryUpdate { timestamp, value }))
            },
        }
    }

    /// Stores a payload that arrived for `key`: its transmission time decides
    /// whether it is accepted, and it is written with the time it was
    /// received added. `None`, with nothing changed, where the transmission
    /// time is a string that is never closed, and where the clock reads
    /// before the epoch. Otherwise the clock reading is recorded (see
    /// `spec_received`) and the store goes as `store_stamped` goes with the
    /// payload stamped with that reading: an accepted payload (into a vacant
    /// partition, or newer for the same key) is always written.
    pub fn store(&mut self, key: String, original_value: String) -> (r: Option<WriteAtRequested>)
        requires
            old(self).wf(),
        ensures
            final(self).wf(),
            final(self).spec_offset() == old(self).spec_offset(),
            selects_unclosed_string(original_value@, transmission_time_path()) ==> {
                &&& r is None
                &&& final(self).spec_state() == old(self).spec_state()
                &&& final(self).spec_key_size() == old(self).spec_key_size()
                &&& final(self).spec_received() == old(self).spec_received()
            },
            !selects_unclosed_string(original_value@, transmission_time_path()) ==> {
                let timestamp = gjson_u64(original_value@, transmission_time_path());
                match final(self).spec_received() {
                    None => {
                        &&& r is None
                        &&& final(self).spec_state() == old(self).spec_state()
                        &&& final(self).spec_key_size() == old(self).spec_key_size()
                    },
                    Some(received) => {
                        let value = stamped_payload(original_value@, received as nat);
                        &&& final(self).spec_state() == state_after_store(
                            old(self).spec_state(),
                            key@,
                            timestamp,
                        )
                        &&& store_accepts(old(self).spec_state(), key@, timestamp) ==> {
                            let (at, data) = planned_write(
                                old(self).spec_state(),
                                old(self).spec_key_size(),
                                key@,
                                timestamp,
                                value,
                            );
                            &&& r matches Some(w)
                            &&& w.offset == old(self).spec_offset() + at
                            &&& w.data@ == data
                            &&& final(self).spec_key_size() == match old(self).spec_state() {
                                None => key_size_after_key(encode_utf8(key@).len()),
                                Some(_) => old(self).spec_key_size(),
                            }
                        }
                        &&& !store_accepts(old(self).spec_state(), key@, timestamp) ==> {
                            &&& r is None
                            &&& final(self).spec_key_size() == old(self).spec_key_size()
                        }
                    },
                }
            },
            ({
                let timestamp = gjson_u64(original_value@, transmission_time_path());
                ||| r is None && final(self).spec_state() == old(self).spec_state()
                    && final(self).spec_key_size() == old(self).spec_key_size()
                ||| exists|received: u128|
                    #![trigger stamped_payload(original_value@, received as nat)]
                    {
                        let value = stamped_payload(original_value@, received as nat);
                        let (at, data) = planned_write(
                            old(self).spec_state(),
                            old(self).spec_key_size(),
                            key@,
                            timestamp,
                            value,
                        );
                        &&& !selects_unclosed_string(original_value@, transmission_time_path())
                        &&& store_accepts(old(self).spec_state(), key@, timestamp)
                        &&& r matches Some(w)
                        &&& w.offset == old(self).spec_offset() + at
                        &&& w.data@ == data
                        &&& final(self).spec_state() == Some((key@, timestamp))
                        &&& final(self).spec_key_size() == match old(self).spec_state() {
                            None => key_size_after_key(encode_utf8(key@).len()),
                            Some(_) => old(self).spec_key_size(),
                        }
                    }
            }),
    {
        let timestamp = match get_timestamp(&original_value) {
            Some(t) => t,
            None => {
                return None;
            },
        };
        let reading = unix_time_millis();
        self.received = Ghost(reading);
        match reading {
            None => None,
            Some(received) => {
                let value = with_received_time_at(&original_value, received);
                self.store_stamped(key, timestamp, value)
            },
        }
    }

    /// Whether a request for the latest payload of `msg`'s key is answered
    /// from this partition: only if the partition holds that key.
    pub fn serves(&self, msg: &LatestRequested) -> (r: bool)
        ensures
            r == (self.spec_state() matches Some((k, _)) && k == msg.0@),
    {
        match &self.state {
            None => false,
            Some((key, _)) => *key == msg.0,
        }
    }
}

} // verus!
