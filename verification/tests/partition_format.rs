use tenken::be_bytes::{u64_from_be_bytes, u64_to_be_bytes};
use tenken::entry::{Entry, EntryUpdate};
use tenken::indexed_file_handle::{entry_fits_in, preface_fits_in, value_fits_in, IndexedFileHandle};
use tenken::legacy::{header_readable, IndexedFileHandle as LegacyHandle, HEADER_BUFFER_SIZE};
use tenken::partition::{key, key_size, timestamp, value, value_size, KeySize, HEADER_SIZE, PARTITION_SIZE};

fn partition_with(bytes: &[u8]) -> Vec<u8> {
    let mut p = vec![0u8; PARTITION_SIZE];
    p[..bytes.len()].copy_from_slice(bytes);
    p
}

#[test]
fn be_bytes_of_u64() {
    assert_eq!(u64_to_be_bytes(0x0102030405060708), vec![1, 2, 3, 4, 5, 6, 7, 8]);
    assert_eq!(u64_to_be_bytes(0), vec![0; 8]);
    assert_eq!(u64_from_be_bytes(&[0, 0, 0, 0, 0, 0, 1, 2]), 258);
    assert_eq!(u64_from_be_bytes(&u64_to_be_bytes(u64::MAX)), u64::MAX);
    assert_eq!(u64_to_be_bytes(1234567), 1234567u64.to_be_bytes().to_vec());
}

#[test]
fn key_size_bounds() {
    assert!(KeySize::try_new(0).is_none());
    assert!(KeySize::try_new(2).is_none());
    assert_eq!(KeySize::try_new(3).map(|k| k.value()), Some(3));
    assert_eq!(KeySize::try_new(100).map(|k| k.usize()), Some(100));
    assert!(KeySize::try_new(101).is_none());
    assert!(KeySize::try_new(255).is_none());
}

#[test]
fn fields_of_a_partition() {
    // key size 4, key "abcd", timestamp 7, value size 2, value "hi"
    let mut bytes = vec![4u8, b'a', b'b', b'c', b'd'];
    bytes.extend_from_slice(&7u64.to_be_bytes());
    bytes.extend_from_slice(&2u64.to_be_bytes());
    bytes.extend_from_slice(b"hi");
    let p = partition_with(&bytes);
    let k = key_size(&p).unwrap();
    assert_eq!(k.value(), 4);
    assert_eq!(key(k, &p), Some("abcd".to_string()));
    assert_eq!(timestamp(k, &p), Some(7));
    assert_eq!(value_size(k, &p), Some(2));
    assert_eq!(value(k, 2, &p), Some("hi".to_string()));
    assert_eq!(value(k, 0, &p), Some(String::new()));
}

#[test]
fn key_that_is_not_utf8_is_refused() {
    let p = partition_with(&[3, 0xff, 0xfe, b'a']);
    let k = key_size(&p).unwrap();
    assert_eq!(key(k, &p), None);
    let q = partition_with(&[3, 0xc3, 0xa9, b'a']);
    assert_eq!(key(key_size(&q).unwrap(), &q), Some("éa".to_string()));
}

#[test]
fn vacant_partition_has_no_key_size() {
    let p = vec![0u8; PARTITION_SIZE];
    assert!(key_size(&p).is_none());
    let mut h = IndexedFileHandle::new(0);
    assert!(h.read_preface_from_buffer(&p[..HEADER_SIZE]).is_none());
    assert!(h.read_value_from_buffer(&p).is_none());
}

#[test]
fn handle_offset_is_index_times_partition_size() {
    assert_eq!(IndexedFileHandle::new(0).offset(), 0);
    assert_eq!(IndexedFileHandle::new(3).offset(), 3 * 2048);
}

#[test]
fn write_then_read_entry() {
    let mut h = IndexedFileHandle::new(2);
    let w = h.write(Entry { key: "probe-1".to_string(), timestamp: 99, value: "{\"a\":1}".to_string() });
    assert_eq!(w.offset, 4096);
    let mut expected = vec![7u8];
    expected.extend_from_slice(b"probe-1");
    expected.extend_from_slice(&99u64.to_be_bytes());
    expected.extend_from_slice(&7u64.to_be_bytes());
    expected.extend_from_slice(b"{\"a\":1}");
    assert_eq!(w.data, expected);
    let p = partition_with(&w.data);
    let mut reader = IndexedFileHandle::new(2);
    let e = reader.read_from_buffer(&p).unwrap();
    assert_eq!((e.key.as_str(), e.timestamp, e.value.as_str()), ("probe-1", 99, "{\"a\":1}"));
    let preface = reader.read_preface_from_buffer(&p[..HEADER_SIZE]).unwrap();
    assert_eq!((preface.key.as_str(), preface.timestamp), ("probe-1", 99));
    assert_eq!(reader.read_value_from_buffer(&p), Some("{\"a\":1}".to_string()));
}

#[test]
fn update_goes_after_the_key() {
    let mut h = IndexedFileHandle::new(1);
    let w = h.write(Entry { key: "abc".to_string(), timestamp: 1, value: "old value".to_string() });
    let mut p = partition_with(&w.data);
    let u = h.write_update(EntryUpdate { timestamp: 5, value: "new".to_string() });
    assert_eq!(u.offset, 2048 + 4);
    let at = (u.offset - 2048) as usize;
    p[at..at + u.data.len()].copy_from_slice(&u.data);
    let mut reader = IndexedFileHandle::new(1);
    let e = reader.read_from_buffer(&p).unwrap();
    assert_eq!((e.key.as_str(), e.timestamp, e.value.as_str()), ("abc", 5, "new"));
}

#[test]
fn update_without_known_key_size_goes_after_size_byte() {
    let h = IndexedFileHandle::new(0);
    let u = h.write_update(EntryUpdate { timestamp: 5, value: "v".to_string() });
    assert_eq!(u.offset, 1);
}

#[test]
fn keys_outside_the_accepted_sizes() {
    let mut h = IndexedFileHandle::new(0);
    let w = h.write(Entry { key: "ab".to_string(), timestamp: 1, value: String::new() });
    assert_eq!(w.data[0], 0);
    let long = "k".repeat(259);
    let w = h.write(Entry { key: long, timestamp: 1, value: String::new() });
    // the length is taken modulo 256
    assert_eq!(w.data[0], 3);
    let u = h.write_update(EntryUpdate { timestamp: 2, value: String::new() });
    assert_eq!(u.offset, 4);
}

#[test]
fn entry_update_from_entry() {
    let u: EntryUpdate<String> = Entry { key: 1u8, timestamp: 3, value: "v".to_string() }.into();
    assert_eq!((u.timestamp, u.value.as_str()), (3, "v"));
}

#[test]
fn reading_bounds() {
    assert!(!preface_fits_in(&[]));
    assert!(preface_fits_in(&[0]));
    // key size 4 with a key but no room for the timestamp
    assert!(!preface_fits_in(&[4, b'a', b'b', b'c', b'd']));
    assert!(!preface_fits_in(&[4, b'a', b'b']));
    // a key that is not UTF-8 is refused before the timestamp is read
    assert!(preface_fits_in(&[4, 0xff, 0xff, 0xff, 0xff]));
    let mut bytes = vec![4u8, b'a', b'b', b'c', b'd'];
    bytes.extend_from_slice(&7u64.to_be_bytes());
    bytes.extend_from_slice(&5000u64.to_be_bytes());
    let p = partition_with(&bytes);
    let k = key_size(&p).unwrap();
    assert!(preface_fits_in(&p));
    assert!(!value_fits_in(k, &p));
    assert!(!entry_fits_in(&p));
    let mut q = p.clone();
    q[13..21].copy_from_slice(&2027u64.to_be_bytes());
    assert!(value_fits_in(k, &q));
    q[13..21].copy_from_slice(&2028u64.to_be_bytes());
    assert!(!value_fits_in(k, &q));
    assert!(entry_fits_in(&vec![0u8; PARTITION_SIZE]));
}

#[test]
fn legacy_reading_bounds() {
    let mut h = vec![0u8; HEADER_BUFFER_SIZE];
    assert!(header_readable(&h));
    assert!(!header_readable(&h[..100]));
    h[0] = 102;
    assert!(!header_readable(&h));
    h[1] = 0xff;
    assert!(header_readable(&h));
    h[0] = 110;
    assert!(!header_readable(&h));
    let handle = LegacyHandle::new(0);
    assert!(handle.partition_readable(&vec![0u8; PARTITION_SIZE]));
    assert!(!handle.partition_readable(&vec![0u8; 10]));
}
