//! What a partition reads back after the writes that a handle produces.

use crate::be_bytes::{
    be_bytes, be_value, lemma_be_bytes_len, lemma_be_roundtrip, lemma_pow256_8,
    lemma_u64_be_roundtrip, pow256, u64_be,
};
use crate::indexed_file_handle::{
    decode_preface, decode_value, entry_bytes_of, key_size_after_key,
    key_size_byte, recorded_value_size, update_bytes_of, update_offset, value_fits,
};
use crate::partition::{
    key_field, timestamp_field, value_field, value_size_field, PARTITION_SIZE,
};
use vstd::prelude::*;
use vstd::utf8::*;

verus! {

/// The bytes of `image` after writing `data` at position `at`.
pub open spec fn apply_write(image: Seq<u8>, at: int, data: Seq<u8>) -> Seq<u8> {
    Seq::new(
        image.len(),
        |i: int|
            if at <= i < at + data.len() {
                data[i - at]
            } else {
                image[i]
            },
    )
}

/// Whether a key of these characters gets an accepted key size.
pub open spec fn key_fits(key: Seq<char>) -> bool {
    3 <= encode_utf8(key).len() <= 100
}

/// Whether a value of these characters fits in a partition after a key of
/// `k` bytes.
pub open spec fn value_fits_after_key(k: int, value: Seq<char>) -> bool {
    k + 17 + encode_utf8(value).len() <= PARTITION_SIZE
}

pub proof fn lemma_apply_write_inside(image: Seq<u8>, at: int, data: Seq<u8>, a: int, b: int)
    requires
        0 <= at,
        at + data.len() <= image.len(),
        at <= a <= b <= at + data.len(),
    ensures
        apply_write(image, at, data).subrange(a, b) == data.subrange(a - at, b - at),
{
    assert(apply_write(image, at, data).subrange(a, b) =~= data.subrange(a - at, b - at));
}

pub proof fn lemma_apply_write_outside(image: Seq<u8>, at: int, data: Seq<u8>, a: int, b: int)
    requires
        0 <= at,
        at + data.len() <= image.len(),
        0 <= a <= b <= image.len(),
        b <= at || at + data.len() <= a,
    ensures
        apply_write(image, at, data).subrange(a, b) == image.subrange(a, b),
{
    assert(apply_write(image, at, data).subrange(a, b) =~= image.subrange(a, b));
}

pub proof fn lemma_update_bytes_parts(t: u64, value: Seq<char>)
    ensures
        update_bytes_of(t, value).len() == 16 + encode_utf8(value).len(),
        update_bytes_of(t, value).subrange(0, 8) == u64_be(t),
        update_bytes_of(t, value).subrange(8, 16) == be_bytes(encode_utf8(value).len(), 8),
        update_bytes_of(t, value).subrange(16, 16 + encode_utf8(value).len() as int) == encode_utf8(
            value,
        ),
{
    lemma_be_bytes_len(t as nat, 8);
    lemma_be_bytes_len(encode_utf8(value).len(), 8);
    let u = update_bytes_of(t, value);
    let vl = encode_utf8(value).len() as int;
    assert(u.subrange(0, 8) =~= u64_be(t));
    assert(u.subrange(8, 16) =~= be_bytes(encode_utf8(value).len(), 8));
    assert(u.subrange(16, 16 + vl) =~= encode_utf8(value));
}

/// The recorded value size and the value of an update, read back.
proof fn lemma_update_fields(after: Seq<u8>, k: int, t: u64, value: Seq<char>)
    requires
        0 <= k,
        after.len() == PARTITION_SIZE,
        k + 17 + encode_utf8(value).len() <= after.len(),
        after.subrange(k + 1, k + 17 + encode_utf8(value).len()) == update_bytes_of(t, value),
    ensures
        be_value(timestamp_field(after, k)) == t,
        recorded_value_size(after, k) == encode_utf8(value).len(),
        value_fits(after, k),
        decode_value(after, k) == Some(value),
{
    let vl = encode_utf8(value).len() as int;
    let u = update_bytes_of(t, value);
    lemma_update_bytes_parts(t, value);
    let w = after.subrange(k + 1, k + 17 + vl);
    assert(timestamp_field(after, k) =~= w.subrange(0, 8));
    assert(value_size_field(after, k) =~= w.subrange(8, 16));
    lemma_u64_be_roundtrip(t);
    lemma_be_roundtrip(vl as nat, 8);
    lemma_pow256_8();
    assert(vl < pow256(8));
    vstd::arithmetic::div_mod::lemma_small_mod(vl as nat, pow256(8));
    assert(recorded_value_size(after, k) == vl);
    assert(value_field(after, k, vl) =~= w.subrange(16, 16 + vl));
    encode_utf8_valid_utf8(value);
    encode_utf8_decode_utf8(value);
}

/// A write of a whole entry reads back as that entry, when the key gets an
/// accepted key size and the value fits in the partition.
pub proof fn lemma_write_then_read(image: Seq<u8>, key: Seq<char>, t: u64, value: Seq<char>)
    requires
        image.len() == PARTITION_SIZE,
        key_fits(key),
        value_fits_after_key(encode_utf8(key).len() as int, value),
    ensures
        ({
            let after = apply_write(image, 0, entry_bytes_of(key, t, value));
            let k = encode_utf8(key).len() as int;
            &&& after[0] == k
            &&& decode_preface(after) == Some((key, t))
            &&& value_fits(after, k)
            &&& decode_value(after, k) == Some(value)
        }),
{
    let kb = encode_utf8(key);
    let k = kb.len() as int;
    let vl = encode_utf8(value).len() as int;
    let data = entry_bytes_of(key, t, value);
    let after = apply_write(image, 0, data);
    lemma_update_bytes_parts(t, value);
    assert(key_size_byte(kb.len()) == k) by {
        vstd::arithmetic::div_mod::lemma_small_mod(kb.len(), 256);
    }
    assert(data.len() == k + 17 + vl);
    assert(after[0] == data[0]);
    lemma_apply_write_inside(image, 0, data, 1, k + 1);
    assert(data.subrange(1, k + 1) =~= kb);
    assert(key_field(after, k) == kb);
    encode_utf8_valid_utf8(key);
    encode_utf8_decode_utf8(key);
    lemma_apply_write_inside(image, 0, data, k + 1, k + 17 + vl);
    assert(data.subrange(k + 1, k + 17 + vl) =~= update_bytes_of(t, value));
    lemma_update_fields(after, k, t, value);
}

/// An update of a partition whose preface reads back keeps the key and
/// reads back as the update's timestamp and value, when the value fits.
pub proof fn lemma_update_then_read(image: Seq<u8>, t: u64, value: Seq<char>)
    requires
        image.len() == PARTITION_SIZE,
        decode_preface(image) is Some,
        value_fits_after_key(image[0] as int, value),
    ensures
        ({
            let k = image[0] as int;
            let after = apply_write(image, k + 1, update_bytes_of(t, value));
            &&& after[0] == image[0]
            &&& decode_preface(after) == Some((decode_preface(image).unwrap().0, t))
            &&& value_fits(after, k)
            &&& decode_value(after, k) == Some(value)
        }),
{
    let k = image[0] as int;
    let vl = encode_utf8(value).len() as int;
    let data = update_bytes_of(t, value);
    let after = apply_write(image, k + 1, data);
    lemma_update_bytes_parts(t, value);
    assert(after[0] == image[0]);
    lemma_apply_write_outside(image, k + 1, data, 1, k + 1);
    lemma_apply_write_inside(image, k + 1, data, k + 1, k + 17 + vl);
    assert(after.subrange(k + 1, k + 17 + vl) == data);
    lemma_update_fields(after, k, t, value);
}

/// A handle that wrote an entry sends its next update just after the key,
/// so the partition then reads back the key with the update's timestamp and
/// value.
pub proof fn lemma_write_update_then_read(
    image: Seq<u8>,
    key: Seq<char>,
    t1: u64,
    v1: Seq<char>,
    t2: u64,
    v2: Seq<char>,
)
    requires
        image.len() == PARTITION_SIZE,
        key_fits(key),
        value_fits_after_key(encode_utf8(key).len() as int, v1),
        value_fits_after_key(encode_utf8(key).len() as int, v2),
    ensures
        ({
            let k = encode_utf8(key).len() as int;
            let written = apply_write(image, 0, entry_bytes_of(key, t1, v1));
            let at = update_offset(key_size_after_key(encode_utf8(key).len()));
            let updated = apply_write(written, at, update_bytes_of(t2, v2));
            &&& at == k + 1
            &&& decode_preface(updated) == Some((key, t2))
            &&& value_fits(updated, k)
            &&& decode_value(updated, k) == Some(v2)
        }),
{
    let k = encode_utf8(key).len() as int;
    lemma_write_then_read(image, key, t1, v1);
    vstd::arithmetic::div_mod::lemma_small_mod(k as nat, 256);
    let written = apply_write(image, 0, entry_bytes_of(key, t1, v1));
    lemma_update_then_read(written, t2, v2);
}

/// A partition whose first byte is zero, as a freshly allocated data file
/// holds it, is vacant: it has no preface.
pub proof fn lemma_zero_key_size_is_vacant(image: Seq<u8>)
    requires
        image.len() >= 1,
        image[0] == 0,
    ensures
        decode_preface(image) is None,
{
}

} // verus!
