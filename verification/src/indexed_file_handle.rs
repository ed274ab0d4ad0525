//! The partition that one probe owns in the data file: where it starts, what
//! key size it last saw, how its bytes decode into an entry, and which bytes a
//! write puts where.

use crate::be_bytes::{be_bytes, be_value, u64_be, u64_from_be_bytes, u64_to_be_bytes};
use crate::entry::{Entry, EntryPreface, EntryUpdate};
use crate::messages::WriteAtRequested;
use crate::partition::{
    is_valid_key_size, key, key_field, key_size, timestamp, timestamp_field, value, value_field,
    value_size, value_size_field, KeySize, PARTITION_SIZE,
};
use crate::text::{string_bytes, string_from_utf8};
use vstd::slice::{slice_subrange, slice_to_vec};
use vstd::prelude::*;
use vstd::utf8::*;

verus! {

/// The key and timestamp that a partition's bytes hold, if its key size is
/// accepted and its key is valid UTF-8.
pub open spec fn decode_preface(buffer: Seq<u8>) -> Option<(Seq<char>, u64)> {
    let k = buffer[0];
    if !is_valid_key_size(k) {
        None
    } else if !valid_utf8(key_field(buffer, k as int)) {
        None
    } else {
        Some(
            (
                decode_utf8(key_field(buffer, k as int)),
                be_value(timestamp_field(buffer, k as int)) as u64,
            ),
        )
    }
}

/// Whether reading a preface stays inside `buffer`: the key size byte, then,
/// for an accepted key size, the key, and, for a key in UTF-8, the timestamp.
pub open spec fn preface_fits(buffer: Seq<u8>) -> bool {
    let k = buffer[0] as int;
    &&& buffer.len() >= 1
    &&& is_valid_key_size(buffer[0]) ==> buffer.len() > k
    &&& is_valid_key_size(buffer[0]) && valid_utf8(key_field(buffer, k)) ==> buffer.len() >= k + 9
}

/// The value size that a partition with key size `k` records.
pub open spec fn recorded_value_size(buffer: Seq<u8>, k: int) -> int {
    be_value(value_size_field(buffer, k)) as int
}

/// Whether the value that a partition with key size `k` records lies inside
/// `buffer`.
pub open spec fn value_fits(buffer: Seq<u8>, k: int) -> bool {
    &&& buffer.len() >= k + 17
    &&& k + recorded_value_size(buffer, k) + 16 < buffer.len()
}

/// The value that a partition with key size `k` holds, if valid UTF-8.
pub open spec fn decode_value(buffer: Seq<u8>, k: int) -> Option<Seq<char>> {
    let field = value_field(buffer, k, recorded_value_size(buffer, k));
    if valid_utf8(field) {
        Some(decode_utf8(field))
    } else {
        None
    }
}

/// The key size byte written for a key of `len` bytes: the length taken
/// modulo 256, or 0 where that is not an accepted key size.
pub open spec fn key_size_byte(len: nat) -> u8 {
    let b = (len % 256) as u8;
    if is_valid_key_size(b) {
        b
    } else {
        0
    }
}

/// The key size that a handle remembers after writing a key of `len` bytes.
pub open spec fn key_size_after_key(len: nat) -> Option<u8> {
    let b = (len % 256) as u8;
    if is_valid_key_size(b) {
        Some(b)
    } else {
        None
    }
}

/// The bytes that a write of `key` starts a partition with: key size, key.
pub open spec fn key_bytes_of(key: Seq<char>) -> Seq<u8> {
    seq![key_size_byte(encode_utf8(key).len())] + encode_utf8(key)
}

/// The bytes that carry a timestamp and a value: timestamp, value size, value.
pub open spec fn update_bytes_of(timestamp: u64, value: Seq<char>) -> Seq<u8> {
    u64_be(timestamp) + be_bytes(encode_utf8(value).len(), 8) + encode_utf8(value)
}

/// The bytes of a whole entry.
pub open spec fn entry_bytes_of(key: Seq<char>, timestamp: u64, value: Seq<char>) -> Seq<u8> {
    key_bytes_of(key) + update_bytes_of(timestamp, value)
}

/// Position within the partition at which an update is written, for the key
/// size that the handle remembers: just after the key.
pub open spec fn update_offset(key_size: Option<u8>) -> int {
    match key_size {
        Some(k) => k as int + 1,
        None => 1,
    }
}

/// The view of an optional preface: its key's characters and its timestamp.
pub open spec fn preface_view(p: Option<EntryPreface<String>>) -> Option<(Seq<char>, u64)> {
    match p {
        Some(p) => Some((p.key@, p.timestamp)),
        None => None,
    }
}

/// The view of an optional entry: key, timestamp, value.
pub open spec fn entry_view(e: Option<Entry<String, String>>) -> Option<(Seq<char>, u64, Seq<char>)> {
    match e {
        Some(e) => Some((e.key@, e.timestamp, e.value@)),
        None => None,
    }
}

/// The view of an optional string.
pub open spec fn string_view(s: Option<String>) -> Option<Seq<char>> {
    match s {
        Some(s) => Some(s@),
        None => None,
    }
}

/// Whether reading a preface from `buffer` stays inside it.
pub fn preface_fits_in(buffer: &[u8]) -> (r: bool)
    ensures
        r == preface_fits(buffer@),
{
    let n = buffer.len();
    if n < 1 {
        return false;
    }
    let b = buffer[0];
    if !(b > 2 && b < 101) {
        return true;
    }
    let k = b as usize;
    if n <= k {
        return false;
    }
    let key_is_text = string_from_utf8(slice_to_vec(slice_subrange(buffer, 1, k + 1))).is_some();
    !key_is_text || n >= k + 9
}

/// Whether reading the value of a partition with key size `key_size` from
/// `buffer` stays inside it.
pub fn value_fits_in(key_size: KeySize, buffer: &[u8]) -> (r: bool)
    ensures
        r == value_fits(buffer@, key_size@ as int),
{
    let k = key_size.usize();
    let n = buffer.len();
    if n < k + 17 {
        return false;
    }
    let v = u64_from_be_bytes(slice_subrange(buffer, k + 9, k + 17));
    (v as u128) + (k as u128) + 16 < n as u128
}

/// Whether reading a whole entry from `buffer` stays inside it.
pub fn entry_fits_in(buffer: &[u8]) -> (r: bool)
    ensures
        r == (preface_fits(buffer@) && (is_valid_key_size(buffer@[0]) ==> value_fits(
            buffer@,
            buffer@[0] as int,
        ))),
{
    if !preface_fits_in(buffer) {
        return false;
    }
    match key_size(buffer) {
        Some(k) => value_fits_in(k, buffer),
        None => true,
    }
}

/// The handle of the partition at `offset` in the data file, with the key
/// size it last read or wrote.
pub struct IndexedFileHandle {
    offset: u64,
    key_size: Option<KeySize>,
}

impl IndexedFileHandle {
    /// Well-formedness: the partition starts at a multiple of the partition
    /// size and lies inside the `u64` range; a remembered key size is accepted.
    pub closed spec fn wf(&self) -> bool {
        &&& self.offset as int % (PARTITION_SIZE as int) == 0
        &&& self.offset + PARTITION_SIZE <= u64::MAX + 1
        &&& self.spec_key_size() matches Some(k) ==> is_valid_key_size(k)
    }

    /// Byte offset of the partition in the data file.
    pub closed spec fn spec_offset(&self) -> u64 {
        self.offset
    }

    /// The key size that the handle remembers.
    pub closed spec fn spec_key_size(&self) -> Option<u8> {
        match self.key_size {
            Some(k) => Some(k@),
            None => None,
        }
    }

    /// The handle of partition number `index`.
    pub fn new(index: u64) -> (r: Self)
        requires
            index * PARTITION_SIZE <= u64::MAX,
        ensures
            r.wf(),
            r.spec_offset() == index * PARTITION_SIZE,
            r.spec_key_size() is None,
    {
        assert((index * 2048) % 2048 == 0) by (nonlinear_arith);
        assert(index * 2048 + 2048 <= u64::MAX + 1) by (nonlinear_arith)
            requires index * 2048 <= u64::MAX;
        IndexedFileHandle { offset: index * (PARTITION_SIZE as u64), key_size: None }
    }

    pub fn offset(&self) -> (r: u64)
        ensures
            r == self.spec_offset(),
    {
        self.offset
    }

    /// The key size that the handle remembers.
    pub fn key_size(&self) -> (r: Option<KeySize>)
        ensures
            match r {
                Some(k) => self.spec_key_size() == Some(k@),
                None => self.spec_key_size() is None,
            },
    {
        self.key_size
    }

    /// Reads the key size, key and timestamp from a partition's bytes and
    /// remembers the key size.
    pub fn read_preface_from_buffer(&mut self, buffer: &[u8]) -> (r: Option<EntryPreface<String>>)
        requires
            old(self).wf(),
            preface_fits(buffer@),
        ensures
            final(self).wf(),
            preface_view(r) == decode_preface(buffer@),
            final(self).spec_offset() == old(self).spec_offset(),
            final(self).spec_key_size() == if is_valid_key_size(buffer@[0]) {
                Some(buffer@[0])
            } else {
                None::<u8>
            },
    {
        self.key_size = key_size(buffer);
        match self.key_size {
            None => None,
            Some(k) => match key(k, buffer) {
                None => None,
                Some(key) => match timestamp(k, buffer) {
                    None => None,
                    Some(timestamp) => Some(EntryPreface { key, timestamp }),
                },
            },
        }
    }

    /// Reads the value from a partition's bytes, by the key size that the
    /// handle remembers.
    pub fn read_value_from_buffer(&self, buffer: &[u8]) -> (r: Option<String>)
        requires
            self.wf(),
            self.spec_key_size() matches Some(k) ==> value_fits(buffer@, k as int),
        ensures
            string_view(r) == match self.spec_key_size() {
                Some(k) => decode_value(buffer@, k as int),
                None => None,
            },
    {
        match self.key_size {
            None => None,
            Some(k) => match value_size(k, buffer) {
                None => None,
                Some(v) => value(k, v, buffer),
            },
        }
    }

    /// Reads a whole entry from a partition's bytes: the preface, then the
    /// value by the key size just read.
    pub fn read_from_buffer(&mut self, buffer: &[u8]) -> (r: Option<Entry<String, String>>)
        requires
            old(self).wf(),
            preface_fits(buffer@),
            is_valid_key_size(buffer@[0]) ==> value_fits(buffer@, buffer@[0] as int),
        ensures
            final(self).wf(),
            entry_view(r) == match (decode_preface(buffer@), decode_value(buffer@, buffer@[0] as int)) {
                (Some((k, t)), Some(v)) => Some((k, t, v)),
                _ => None,
            },
            final(self).spec_offset() == old(self).spec_offset(),
            final(self).spec_key_size() == if is_valid_key_size(buffer@[0]) {
                Some(buffer@[0])
            } else {
                None::<u8>
            },
    {
        match self.read_preface_from_buffer(buffer) {
            None => None,
            Some(preface) => match self.read_value_from_buffer(buffer) {
                None => None,
                Some(value) => Some(Entry { key: preface.key, timestamp: preface.timestamp, value }),
            },
        }
    }

    /// The bytes that start a partition with `key`; remembers its key size.
    fn key_bytes(&mut self, key: &String) -> (r: Vec<u8>)
        requires
            old(self).wf(),
        ensures
            final(self).wf(),
            r@ == key_bytes_of(key@),
            final(self).spec_offset() == old(self).spec_offset(),
            final(self).spec_key_size() == key_size_after_key(encode_utf8(key@).len()),
    {
        let bytes = string_bytes(key);
        let len = bytes.len();
        self.key_size = KeySize::try_new((len % 256) as u8);
        let size_byte = match self.key_size {
            Some(k) => k.value(),
            None => 0,
        };
        let mut r = vec![size_byte];
        let mut rest = bytes;
        r.append(&mut rest);
        r
    }

    /// The bytes that carry an update: timestamp, value size, value.
    fn update_bytes(&self, update: EntryUpdate<String>) -> (r: Vec<u8>)
        ensures
            r@ == update_bytes_of(update.timestamp, update.value@),
    {
        let mut r = u64_to_be_bytes(update.timestamp);
        let mut data = string_bytes(&update.value);
        let mut data_length = u64_to_be_bytes(data.len() as u64);
        r.append(&mut data_length);
        r.append(&mut data);
        r
    }

    /// The request that writes `buffer` at `offset` within the partition.
    fn write_at(&self, buffer: Vec<u8>, offset: u64) -> (r: WriteAtRequested)
        requires
            self.wf(),
            offset < PARTITION_SIZE,
        ensures
            r.offset == self.spec_offset() + offset,
            r.data@ == buffer@,
    {
        WriteAtRequested { offset: self.offset + offset, data: buffer }
    }

    /// The write that puts a whole entry at the start of the partition;
    /// the handle remembers the key size of the entry's key.
    pub fn write(&mut self, entry: Entry<String, String>) -> (r: WriteAtRequested)
        requires
            old(self).wf(),
        ensures
            final(self).wf(),
            r.offset == old(self).spec_offset(),
            r.data@ == entry_bytes_of(entry.key@, entry.timestamp, entry.value@),
            final(self).spec_offset() == old(self).spec_offset(),
            final(self).spec_key_size() == key_size_after_key(encode_utf8(entry.key@).len()),
    {
        let mut key = self.key_bytes(&entry.key);
        let mut update = self.update_bytes(entry.into());
        key.append(&mut update);
        self.write_at(key, 0)
    }

    /// The write that replaces timestamp and value, just after the key that
    /// the handle remembers (or after the key size byte, if it remembers none).
    pub fn write_update(&self, update: EntryUpdate<String>) -> (r: WriteAtRequested)
        requires
            self.wf(),
        ensures
            r.offset == self.spec_offset() + update_offset(self.spec_key_size()),
            r.data@ == update_bytes_of(update.timestamp, update.value@),
    {
        let buffer = self.update_bytes(update);
        let offset = match self.key_size {
            Some(k) => k.value() as u64,
            None => 0,
        } + 1;
        self.write_at(buffer, offset)
    }
}

} // verus!
