//! The first layout of the data file. Its fields follow the layout that
//! `partition` documents (key size, key, then timestamp, value size and
//! value just after the key); what sets it apart is that a header of 109
//! bytes is read first, that a zero key size or a zero timestamp marks a
//! partition as vacant, and that reading or writing reports why it failed.

use crate::be_bytes::{be_value, u64_from_be_bytes};
use crate::entry::{Entry, EntryPreface, EntryUpdate};
use crate::indexed_file_handle::update_bytes_of;
use crate::messages::{LatestRequested, WriteAtRequested};
use crate::partition::PARTITION_SIZE;
use crate::partition_laws::{
    apply_write, lemma_apply_write_inside, lemma_apply_write_outside, lemma_update_bytes_parts,
};
use crate::be_bytes::{lemma_be_roundtrip, lemma_pow256_8, lemma_u64_be_roundtrip, pow256};
use crate::text::{parse_u64, parse_u64_spec, string_bytes, string_from_utf8};
use crate::transactor::{state_after_store, state_view, store_accepts};
use vstd::prelude::*;
use vstd::slice::{slice_subrange, slice_to_vec};
use vstd::utf8::*;

verus! {

/// The number of bytes read as a partition's header.
pub const HEADER_BUFFER_SIZE: usize = 109;

/// Why a partition could not be read or written.
#[derive(Debug)]
pub enum FileHandleError {
    ReadIntoBufferFailed,
    ReadDataLengthFailed,
    DataLengthOffsetConversionFailed,
    ReadDataAsStringFailed,
    ReadIntoHeaderBufferFailed,
    KeySizeConversionFailed,
    KeyReadFailed,
    TimestampReadFailed,
    KeyWriteFailed,
    UpdateWriteFailed,
}

pub type FhResult<T> = Result<T, FileHandleError>;

/// Access to the entry of one partition.
pub trait FileHandle<K, V> {
    fn read(&mut self) -> FhResult<Option<Entry<K, V>>>;

    fn read_value(&self) -> FhResult<Option<V>>;

    fn read_preface(&mut self) -> FhResult<Option<EntryPreface<K>>>;

    fn write(&mut self, entry: Entry<K, V>) -> FhResult<()>;

    fn write_key(&mut self, key: K) -> FhResult<()>;

    fn write_update(&self, update: EntryUpdate<V>) -> FhResult<()>;
}

/// The regular expression that finds a payload's transmission time.
pub open spec fn transmission_time_pattern() -> Seq<char> {
    "\"eventTransmissionTime\":\\s*(\\d+),"@
}

/// What the first capture group of the regular expression `pattern` matches
/// in `text`, at its leftmost match, if `pattern` compiles and matches.
pub uninterp spec fn regex_first_group(pattern: Seq<char>, text: Seq<char>) -> Option<Seq<char>>;

/// Compiles `pattern` with `regex::Regex::new`, finds its leftmost match in
/// `text` with `Regex::captures`, and gives the text of capture group 1. The
/// result is named, not described: the regex crate's matching is its own;
/// the contract claims only that the result depends on the two texts alone.
#[verifier::external_body]
fn first_capture_group(pattern: &str, text: &str) -> (r: Option<String>)
    ensures
        match r {
            Some(s) => regex_first_group(pattern@, text@) == Some(s@),
            None => regex_first_group(pattern@, text@) is None,
        },
{
    match regex::Regex::new(pattern) {
        Ok(re) => match re.captures(text) {
            Some(caps) => match caps.get(1) {
                Some(m) => Some(m.as_str().to_string()),
                None => None,
            },
            None => None,
        },
        Err(_) => None,
    }
}

/// The transmission time that a payload records, as the digits that the
/// pattern captures read as a `u64`.
pub open spec fn legacy_timestamp(value: Seq<char>) -> Option<u64> {
    match regex_first_group(transmission_time_pattern(), value) {
        Some(digits) => parse_u64_spec(digits),
        None => None,
    }
}

/// The key bytes of a header whose key size byte is `k`: bytes `1..=k`.
pub open spec fn legacy_key_field(header: Seq<u8>, k: int) -> Seq<u8> {
    header.subrange(1, k + 1)
}

/// The timestamp bytes of a partition whose key size byte is `k`.
pub open spec fn legacy_timestamp_field(header: Seq<u8>, k: int) -> Seq<u8> {
    header.subrange(k + 1, k + 9)
}

/// What reading a header gives: nothing for a zero key size, an error for a
/// key that is not UTF-8, nothing for a zero timestamp, else key and
/// timestamp.
pub open spec fn legacy_preface(header: Seq<u8>) -> Result<Option<(Seq<char>, u64)>, FileHandleError> {
    let k = header[0] as int;
    if k == 0 {
        Ok(None)
    } else if !valid_utf8(legacy_key_field(header, k)) {
        Err(FileHandleError::KeyReadFailed)
    } else if be_value(legacy_timestamp_field(header, k)) == 0 {
        Ok(None)
    } else {
        Ok(
            Some(
                (
                    decode_utf8(legacy_key_field(header, k)),
                    be_value(legacy_timestamp_field(header, k)) as u64,
                ),
            ),
        )
    }
}

/// Whether a header can be read without running past it: it has the
/// header's size, its key lies inside it, and so does the timestamp of a key
/// in UTF-8.
pub open spec fn legacy_header_readable(header: Seq<u8>) -> bool {
    &&& header.len() == HEADER_BUFFER_SIZE
    &&& header[0] != 0 ==> header[0] + 1 <= HEADER_BUFFER_SIZE
    &&& header[0] != 0 && valid_utf8(legacy_key_field(header, header[0] as int)) ==> header[0]
        + 9 <= HEADER_BUFFER_SIZE
}

/// Whether the value of a partition can be read by the key size `k` without
/// running past it.
pub open spec fn legacy_partition_readable(buffer: Seq<u8>, k: u64) -> bool {
    &&& buffer.len() == PARTITION_SIZE
    &&& k != 0 ==> legacy_value_fits(buffer, k as int)
}

/// The value size that a partition with key size `k` records.
pub open spec fn legacy_value_size(buffer: Seq<u8>, k: int) -> int {
    be_value(buffer.subrange(k + 9, k + 17)) as int
}

/// Whether reading the value of a partition with key size `k` stays inside
/// `buffer`.
pub open spec fn legacy_value_fits(buffer: Seq<u8>, k: int) -> bool {
    &&& k + 17 <= buffer.len()
    &&& legacy_value_size(buffer, k) <= usize::MAX ==> k + 17 + legacy_value_size(buffer, k)
        <= buffer.len()
}

/// What reading the value of a partition with key size `k` gives.
pub open spec fn legacy_value(buffer: Seq<u8>, k: int) -> Result<Option<Seq<char>>, FileHandleError> {
    let v = legacy_value_size(buffer, k);
    let field = buffer.subrange(k + 17, k + 17 + v);
    if k == 0 {
        Ok(None)
    } else if v > usize::MAX {
        Err(FileHandleError::DataLengthOffsetConversionFailed)
    } else if !valid_utf8(field) {
        Err(FileHandleError::ReadDataAsStringFailed)
    } else {
        Ok(Some(decode_utf8(field)))
    }
}

/// The writes of a whole entry into the partition at `offset`: key size and
/// key first, then timestamp, value size and value just after the key;
/// an error for a key longer than 255 bytes.
pub open spec fn legacy_entry_writes(
    offset: u64,
    key: Seq<char>,
    timestamp: u64,
    value: Seq<char>,
) -> Result<(int, Seq<u8>, int, Seq<u8>), FileHandleError> {
    let len = encode_utf8(key).len();
    if len > 255 {
        Err(FileHandleError::KeySizeConversionFailed)
    } else {
        Ok(
            (
                offset as int,
                seq![len as u8] + encode_utf8(key),
                offset + len + 1,
                update_bytes_of(timestamp, value),
            ),
        )
    }
}

/// The view of a read preface.
pub open spec fn preface_result_view(r: FhResult<Option<EntryPreface<String>>>) -> Result<
    Option<(Seq<char>, u64)>,
    FileHandleError,
> {
    match r {
        Ok(Some(p)) => Ok(Some((p.key@, p.timestamp))),
        Ok(None) => Ok(None),
        Err(e) => Err(e),
    }
}

/// The view of a read value.
pub open spec fn value_result_view(r: FhResult<Option<String>>) -> Result<
    Option<Seq<char>>,
    FileHandleError,
> {
    match r {
        Ok(Some(v)) => Ok(Some(v@)),
        Ok(None) => Ok(None),
        Err(e) => Err(e),
    }
}

/// The view of the writes of an entry.
pub open spec fn writes_view(r: FhResult<(WriteAtRequested, WriteAtRequested)>) -> Result<
    (int, Seq<u8>, int, Seq<u8>),
    FileHandleError,
> {
    match r {
        Ok((k, u)) => Ok((k.offset as int, k.data@, u.offset as int, u.data@)),
        Err(e) => Err(e),
    }
}

/// Whether a header can be read without running past it.
pub fn header_readable(header: &[u8]) -> (r: bool)
    ensures
        r == legacy_header_readable(header@),
{
    if header.len() != HEADER_BUFFER_SIZE {
        return false;
    }
    let k = header[0] as usize;
    if k == 0 {
        return true;
    }
    if k + 1 > HEADER_BUFFER_SIZE {
        return false;
    }
    let key_is_text = string_from_utf8(slice_to_vec(slice_subrange(header, 1, k + 1))).is_some();
    !key_is_text || k + 9 <= HEADER_BUFFER_SIZE
}

/// The handle of a partition in the first layout.
pub struct IndexedFileHandle {
    offset: u64,
    key_size: u64,
}

impl IndexedFileHandle {
    /// The partition lies inside the `u64` range.
    pub closed spec fn wf(&self) -> bool {
        self.offset + PARTITION_SIZE <= u64::MAX + 1
    }

    pub closed spec fn spec_offset(&self) -> u64 {
        self.offset
    }

    pub closed spec fn spec_key_size(&self) -> u64 {
        self.key_size
    }

    /// The handle of partition number `index`.
    pub fn new(index: u64) -> (r: Self)
        requires
            index * PARTITION_SIZE <= u64::MAX,
        ensures
            r.wf(),
            r.spec_offset() == index * PARTITION_SIZE,
            r.spec_key_size() == 0,
    {
        assert(index * 2048 + 2048 <= u64::MAX + 1) by (nonlinear_arith)
            requires
                index * 2048 <= u64::MAX,
        ;
        IndexedFileHandle { offset: index * (PARTITION_SIZE as u64), key_size: 0 }
    }

    pub fn offset(&self) -> (r: u64)
        ensures
            r == self.spec_offset(),
    {
        self.offset
    }

    /// The key size that the handle remembers; 0 means that the partition's
    /// value is not to be read.
    pub fn key_size(&self) -> (r: u64)
        ensures
            r == self.spec_key_size(),
    {
        self.key_size
    }

    /// Whether the value of a partition can be read by the handle's key size
    /// without running past it.
    pub fn partition_readable(&self, buffer: &[u8]) -> (r: bool)
        ensures
            r == legacy_partition_readable(buffer@, self.spec_key_size()),
    {
        if buffer.len() != PARTITION_SIZE {
            return false;
        }
        if self.key_size == 0 {
            return true;
        }
        if self.key_size > 2031 {
            return false;
        }
        let k = self.key_size as usize;
        let v = u64_from_be_bytes(slice_subrange(buffer, k + 9, k + 17));
        if v > usize::MAX as u64 {
            return true;
        }
        (k as u128) + 17 + (v as u128) <= PARTITION_SIZE as u128
    }

    /// Reads key and timestamp from a partition's header and remembers its
    /// key size.
    pub fn read_preface_from_header(&mut self, header: &[u8]) -> (r: FhResult<
        Option<EntryPreface<String>>,
    >)
        requires
            old(self).wf(),
            legacy_header_readable(header@),
        ensures
            final(self).wf(),
            final(self).spec_offset() == old(self).spec_offset(),
            final(self).spec_key_size() == header@[0],
            preface_result_view(r) == legacy_preface(header@),
    {
        let key_size = header[0];
        self.key_size = key_size as u64;
        if key_size == 0 {
            return Ok(None);
        }
        let k = key_size as usize;
        let key_bytes = slice_to_vec(slice_subrange(header, 1, k + 1));
        let key = match string_from_utf8(key_bytes) {
            Some(key) => key,
            None => {
                return Err(FileHandleError::KeyReadFailed);
            },
        };
        let timestamp = u64_from_be_bytes(slice_subrange(header, k + 1, k + 9));
        if timestamp == 0 {
            return Ok(None);
        }
        Ok(Some(EntryPreface { key, timestamp }))
    }

    /// Reads the value from a partition's bytes by the key size that the
    /// handle remembers.
    pub fn read_value_from_buffer(&self, buffer: &[u8]) -> (r: FhResult<Option<String>>)
        requires
            self.wf(),
            legacy_partition_readable(buffer@, self.spec_key_size()),
        ensures
            value_result_view(r) == legacy_value(buffer@, self.spec_key_size() as int),
    {
        if self.key_size == 0 {
            return Ok(None);
        }
        let header_offset = (self.key_size + 9) as usize;
        let data_length = u64_from_be_bytes(slice_subrange(buffer, header_offset, header_offset + 8));
        if data_length > usize::MAX as u64 {
            return Err(FileHandleError::DataLengthOffsetConversionFailed);
        }
        let data_length_offset = data_length as usize;
        let data = slice_to_vec(
            slice_subrange(buffer, header_offset + 8, header_offset + 8 + data_length_offset),
        );
        match string_from_utf8(data) {
            Some(value) => Ok(Some(value)),
            None => Err(FileHandleError::ReadDataAsStringFailed),
        }
    }

    /// The write of a key size and key at the start of the partition; the
    /// handle remembers the key's length even where it is too long to write.
    pub fn write_key(&mut self, key: String) -> (r: FhResult<WriteAtRequested>)
        requires
            old(self).wf(),
        ensures
            final(self).wf(),
            final(self).spec_offset() == old(self).spec_offset(),
            final(self).spec_key_size() == encode_utf8(key@).len(),
            encode_utf8(key@).len() > 255 ==> r matches Err(
                FileHandleError::KeySizeConversionFailed,
            ),
            encode_utf8(key@).len() <= 255 ==> (r matches Ok(w) && w.offset == old(
                self,
            ).spec_offset() && w.data@ == seq![encode_utf8(key@).len() as u8] + encode_utf8(
                key@,
            )),
    {
        let bytes = string_bytes(&key);
        let len = bytes.len();
        self.key_size = len as u64;
        if len > 255 {
            return Err(FileHandleError::KeySizeConversionFailed);
        }
        let mut data = vec![len as u8];
        let mut rest = bytes;
        data.append(&mut rest);
        Ok(WriteAtRequested { offset: self.offset, data })
    }

    /// The write of a timestamp and value just after the key.
    pub fn write_update(&self, update: EntryUpdate<String>) -> (r: WriteAtRequested)
        requires
            self.wf(),
            self.spec_offset() + self.spec_key_size() + 1 <= u64::MAX,
        ensures
            r.offset == self.spec_offset() + self.spec_key_size() + 1,
            r.data@ == update_bytes_of(update.timestamp, update.value@),
    {
        let mut data = crate::be_bytes::u64_to_be_bytes(update.timestamp);
        let mut value = string_bytes(&update.value);
        let mut data_length = crate::be_bytes::u64_to_be_bytes(value.len() as u64);
        data.append(&mut data_length);
        data.append(&mut value);
        WriteAtRequested { offset: self.offset + self.key_size + 1, data }
    }

    /// The writes of a whole entry: its key, then its timestamp and value.
    pub fn write(&mut self, entry: Entry<String, String>) -> (r: FhResult<
        (WriteAtRequested, WriteAtRequested),
    >)
        requires
            old(self).wf(),
        ensures
            final(self).wf(),
            final(self).spec_offset() == old(self).spec_offset(),
            final(self).spec_key_size() == encode_utf8(entry.key@).len(),
            writes_view(r) == legacy_entry_writes(
                old(self).spec_offset(),
                entry.key@,
                entry.timestamp,
                entry.value@,
            ),
    {
        let key_write = match self.write_key(entry.key) {
            Ok(w) => w,
            Err(e) => {
                return Err(e);
            },
        };
        let update_write = self.write_update(
            EntryUpdate { timestamp: entry.timestamp, value: entry.value },
        );
        Ok((key_write, update_write))
    }
}

/// The owner of a partition in the first layout.
pub struct Transactor {
    state: Option<(String, u64)>,
    file: IndexedFileHandle,
}

impl Transactor {
    pub closed spec fn spec_state(&self) -> Option<(Seq<char>, u64)> {
        state_view(self.state)
    }

    pub closed spec fn spec_file(&self) -> IndexedFileHandle {
        self.file
    }

    /// The owner of the partition of `file`, holding nothing yet.
    pub fn new(file: IndexedFileHandle) -> (r: Self)
        ensures
            r.spec_state() is None,
            r.spec_file() == file,
    {
        Transactor { state: None, file }
    }

    /// The transmission time that a payload records, if the pattern finds
    /// one that fits in a `u64`.
    pub fn get_timestamp(&self, value: &String) -> (r: Option<u64>)
        ensures
            r == legacy_timestamp(value@),
    {
        match first_capture_group(transmission_time_pattern_str(), value.as_str()) {
            Some(digits) => parse_u64(digits.as_str()),
            None => None,
        }
    }

    /// Sets the state to `key` at `timestamp`.
    pub fn restore(&mut self, key: String, timestamp: u64)
        ensures
            final(self).spec_state() == Some((key@, timestamp)),
            final(self).spec_file() == old(self).spec_file(),
    {
        self.state = Some((key, timestamp));
    }

    /// Stores `next_value`, transmitted at `next_timestamp`, for
    /// `next_key`: if accepted, the state moves on and the result holds the
    /// writes of the whole entry; otherwise nothing changes.
    pub fn store_at(&mut self, next_key: String, next_timestamp: u64, next_value: String) -> (r: Option<
        FhResult<(WriteAtRequested, WriteAtRequested)>,
    >)
        requires
            old(self).spec_file().wf(),
        ensures
            final(self).spec_file().wf(),
            final(self).spec_state() == state_after_store(
                old(self).spec_state(),
                next_key@,
                next_timestamp,
            ),
            store_accepts(old(self).spec_state(), next_key@, next_timestamp) ==> (r matches Some(
                w,
            ) && writes_view(w) == legacy_entry_writes(
                old(self).spec_file().spec_offset(),
                next_key@,
                next_timestamp,
                next_value@,
            )),
            store_accepts(old(self).spec_state(), next_key@, next_timestamp) ==> {
                &&& final(self).spec_file().spec_key_size() == encode_utf8(next_key@).len()
                &&& final(self).spec_file().spec_offset() == old(self).spec_file().spec_offset()
            },
            !store_accepts(old(self).spec_state(), next_key@, next_timestamp) ==> r is None
                && final(self).spec_file() == old(self).spec_file(),
    {
        let accepted = match &self.state {
            None => true,
            Some((key, timestamp)) => next_key == *key && next_timestamp > *timestamp,
        };
        if !accepted {
            return None;
        }
        self.state = Some((next_key.clone(), next_timestamp));
        Some(self.file.write(Entry { key: next_key, timestamp: next_timestamp, value: next_value }))
    }

    /// Whether a request for the latest payload of `msg`'s key is answered
    /// from this partition.
    pub fn serves(&self, msg: &LatestRequested) -> (r: bool)
        ensures
            r == (self.spec_state() matches Some((k, _)) && k == msg.0@),
    {
        match &self.state {
            None => false,
            Some((key, _)) => *key == msg.0,
        }
    }

    /// The partition's handle.
    pub fn file(&self) -> (r: &IndexedFileHandle)
        ensures
            *r == self.spec_file(),
    {
        &self.file
    }
}

/// Read after write in the first layout: after the writes of an entry, a
/// partition reads back its key and value, and its timestamp unless that is
/// 0 (the mark of a vacant partition), when the key has 1 to 100 bytes and
/// the value fits in the partition.
pub proof fn lemma_legacy_write_then_read(image: Seq<u8>, key: Seq<char>, t: u64, value: Seq<char>)
    requires
        image.len() == PARTITION_SIZE,
        1 <= encode_utf8(key).len() <= 100,
        encode_utf8(key).len() + 17 + encode_utf8(value).len() <= PARTITION_SIZE,
    ensures
        ({
            let k = encode_utf8(key).len() as int;
            let (key_at, key_data, update_at, update_data) = legacy_entry_writes(
                0,
                key,
                t,
                value,
            ).unwrap();
            let after = apply_write(apply_write(image, key_at, key_data), update_at, update_data);
            &&& after[0] == k
            &&& legacy_header_readable(after.subrange(0, HEADER_BUFFER_SIZE as int))
            &&& legacy_preface(after) == if t == 0 {
                Ok::<Option<(Seq<char>, u64)>, FileHandleError>(None)
            } else {
                Ok(Some((key, t)))
            }
            &&& legacy_partition_readable(after, k as u64)
            &&& legacy_value(after, k) == Ok::<Option<Seq<char>>, FileHandleError>(Some(value))
        }),
{
    let kb = encode_utf8(key);
    let k = kb.len() as int;
    let vl = encode_utf8(value).len() as int;
    let key_data = seq![k as u8] + kb;
    let update_data = update_bytes_of(t, value);
    let first = apply_write(image, 0, key_data);
    let after = apply_write(first, k + 1, update_data);
    lemma_update_bytes_parts(t, value);
    assert(after[0] == first[0]);
    lemma_apply_write_outside(first, k + 1, update_data, 1, k + 1);
    lemma_apply_write_inside(image, 0, key_data, 1, k + 1);
    assert(key_data.subrange(1, k + 1) =~= kb);
    assert(legacy_key_field(after, k) == kb);
    encode_utf8_valid_utf8(key);
    encode_utf8_decode_utf8(key);
    lemma_apply_write_inside(first, k + 1, update_data, k + 1, k + 17 + vl);
    let w = after.subrange(k + 1, k + 17 + vl);
    assert(update_data.subrange(0, 16 + vl) =~= update_data);
    assert(w == update_data);
    assert(legacy_timestamp_field(after, k) =~= w.subrange(0, 8));
    assert(after.subrange(k + 9, k + 17) =~= w.subrange(8, 16));
    assert(after.subrange(k + 17, k + 17 + vl) =~= w.subrange(16, 16 + vl));
    lemma_u64_be_roundtrip(t);
    lemma_be_roundtrip(vl as nat, 8);
    lemma_pow256_8();
    vstd::arithmetic::div_mod::lemma_small_mod(vl as nat, pow256(8));
    assert(legacy_value_size(after, k) == vl);
    encode_utf8_valid_utf8(value);
    encode_utf8_decode_utf8(value);
    let h = after.subrange(0, HEADER_BUFFER_SIZE as int);
    assert(h[0] == after[0]);
    assert(legacy_key_field(h, k) == legacy_key_field(after, k));
}

/// The pattern that finds a payload's transmission time, character for
/// character: a quote, the member name `eventTransmissionTime`, a quote and
/// a colon, then `\s*` (any white space, none at all included), then the
/// capture group `(\d+)` of one or more digits, then a comma.
pub proof fn lemma_transmission_time_pattern_chars()
    ensures
        transmission_time_pattern() == seq!['"'] + seq![
            'e', 'v', 'e', 'n', 't', 'T', 'r', 'a', 'n', 's', 'm', 'i', 's', 's', 'i', 'o', 'n',
            'T', 'i', 'm', 'e',
        ] + seq!['"', ':'] + seq!['\\', 's', '*'] + seq!['(', '\\', 'd', '+', ')'] + seq![','],
{
    reveal_strlit("\"eventTransmissionTime\":\\s*(\\d+),");
}

fn transmission_time_pattern_str() -> (r: &'static str)
    ensures
        r@ == transmission_time_pattern(),
{
    "\"eventTransmissionTime\":\\s*(\\d+),"
}

} // verus!
