//! The byte layout of one partition of the data file.
//!
//! | item       | start  | size |
//! |------------|--------|------|
//! | key size   | 0      | 1    |
//! | key        | 1      | k    |
//! | timestamp  | k + 1  | 8    |
//! | value size | k + 9  | 8    |
//! | value      | k + 17 | v    |
//!
//! Integers are big-endian; key and value are UTF-8.

use crate::be_bytes::{be_value, u64_from_be_bytes};
use crate::text::string_from_utf8;
use vstd::prelude::*;
use vstd::slice::*;
use vstd::utf8::*;

verus! {

/// The number of bytes reserved for each partition.
pub const PARTITION_SIZE: usize = 2048;

/// The number of bytes that hold a partition's preface (key size, key and
/// timestamp) for the longest key.
pub const HEADER_SIZE: usize = 109;

/// Whether `b` is an accepted key size: more than 2 and less than 101 bytes.
pub open spec fn is_valid_key_size(b: u8) -> bool {
    2 < b && b < 101
}

/// The key bytes of a partition whose key size is `k`.
pub open spec fn key_field(buffer: Seq<u8>, k: int) -> Seq<u8> {
    buffer.subrange(1, k + 1)
}

/// The timestamp bytes of a partition whose key size is `k`.
pub open spec fn timestamp_field(buffer: Seq<u8>, k: int) -> Seq<u8> {
    buffer.subrange(k + 1, k + 9)
}

/// The value-size bytes of a partition whose key size is `k`.
pub open spec fn value_size_field(buffer: Seq<u8>, k: int) -> Seq<u8> {
    buffer.subrange(k + 9, k + 17)
}

/// The `v` value bytes of a partition whose key size is `k`.
pub open spec fn value_field(buffer: Seq<u8>, k: int, v: int) -> Seq<u8> {
    buffer.subrange(k + 17, k + 17 + v)
}

/// A key size: always more than 2 and less than 101.
#[derive(Debug, Clone, Copy)]
pub struct KeySize(u8);

impl View for KeySize {
    type V = u8;

    closed spec fn view(&self) -> u8 {
        self.0
    }
}

impl KeySize {
    #[verifier::type_invariant]
    spec fn inv(self) -> bool {
        is_valid_key_size(self.0)
    }

    /// The key size `value`, if it is accepted.
    pub fn try_new(value: u8) -> (r: Option<KeySize>)
        ensures
            r is Some <==> is_valid_key_size(value),
            r matches Some(k) ==> k@ == value,
    {
        if value > 2u8 && value < 101u8 {
            Some(KeySize(value))
        } else {
            None
        }
    }

    pub fn value(&self) -> (r: u8)
        ensures
            r == self@,
            is_valid_key_size(r),
    {
        proof {
            use_type_invariant(self);
        }
        self.0
    }

    pub fn usize(&self) -> (r: usize)
        ensures
            r == self@,
            is_valid_key_size(self@),
    {
        proof {
            use_type_invariant(self);
        }
        self.0 as usize
    }
}

/// The key size that the first byte of a partition records, if accepted.
pub fn key_size(buffer: &[u8]) -> (r: Option<KeySize>)
    requires
        buffer@.len() >= 1,
    ensures
        r is Some <==> is_valid_key_size(buffer@[0]),
        r matches Some(k) ==> k@ == buffer@[0],
{
    KeySize::try_new(buffer[0])
}

/// The key of a partition, if its bytes are valid UTF-8.
pub fn key(key_size: KeySize, buffer: &[u8]) -> (r: Option<String>)
    requires
        buffer@.len() > key_size@,
    ensures
        r is Some <==> valid_utf8(key_field(buffer@, key_size@ as int)),
        r matches Some(s) ==> s@ == decode_utf8(key_field(buffer@, key_size@ as int)),
{
    let k = key_size.usize();
    string_from_utf8(slice_to_vec(slice_subrange(buffer, 1, k + 1)))
}

/// The timestamp of a partition.
pub fn timestamp(key_size: KeySize, buffer: &[u8]) -> (r: Option<u64>)
    requires
        buffer@.len() >= key_size@ + 9,
    ensures
        r matches Some(t) && t == be_value(timestamp_field(buffer@, key_size@ as int)),
{
    let k = key_size.usize();
    Some(u64_from_be_bytes(slice_subrange(buffer, k + 1, k + 9)))
}

/// The value size of a partition.
pub fn value_size(key_size: KeySize, buffer: &[u8]) -> (r: Option<u64>)
    requires
        buffer@.len() >= key_size@ + 17,
    ensures
        r matches Some(v) && v == be_value(value_size_field(buffer@, key_size@ as int)),
{
    let k = key_size.usize();
    Some(u64_from_be_bytes(slice_subrange(buffer, k + 9, k + 17)))
}

/// The value of a partition, if its `value_size` bytes are valid UTF-8.
pub fn value(key_size: KeySize, value_size: u64, buffer: &[u8]) -> (r: Option<String>)
    requires
        key_size@ + value_size + 16 < buffer@.len(),
    ensures
        r is Some <==> valid_utf8(value_field(buffer@, key_size@ as int, value_size as int)),
        r matches Some(s) ==> s@ == decode_utf8(
            value_field(buffer@, key_size@ as int, value_size as int),
        ),
{
    let k = key_size.usize();
    let n = buffer.len();
    assert(value_size < n);
    let v = value_size as usize;
    string_from_utf8(slice_to_vec(slice_subrange(buffer, k + 17, k + v + 17)))
}

} // verus!
