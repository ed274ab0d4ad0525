use tenken::entry::Entry;
use tenken::legacy::{FileHandleError, IndexedFileHandle, Transactor, HEADER_BUFFER_SIZE};
use tenken::messages::LatestRequested;
use tenken::partition::PARTITION_SIZE;

fn header_bytes(partition: &[u8]) -> &[u8] {
    &partition[..HEADER_BUFFER_SIZE]
}

#[test]
fn legacy_entry_reads_back() {
    let mut h = IndexedFileHandle::new(1);
    let (kw, uw) = h.write(Entry { key: "probe".to_string(), timestamp: 77, value: "payload".to_string() }).unwrap();
    assert_eq!(kw.offset, 2048);
    assert_eq!(kw.data, b"\x05probe".to_vec());
    assert_eq!(uw.offset, 2048 + 6);
    let mut p = vec![0u8; PARTITION_SIZE];
    p[..kw.data.len()].copy_from_slice(&kw.data);
    p[6..6 + uw.data.len()].copy_from_slice(&uw.data);
    let mut reader = IndexedFileHandle::new(1);
    let preface = reader.read_preface_from_header(header_bytes(&p)).ok().unwrap().unwrap();
    assert_eq!((preface.key.as_str(), preface.timestamp), ("probe", 77));
    assert_eq!(reader.key_size(), 5);
    assert_eq!(reader.read_value_from_buffer(&p).ok().unwrap(), Some("payload".to_string()));
}

#[test]
fn legacy_vacant_partitions() {
    let mut h = IndexedFileHandle::new(0);
    let zero = vec![0u8; PARTITION_SIZE];
    assert!(matches!(h.read_preface_from_header(header_bytes(&zero)), Ok(None)));
    assert!(matches!(h.read_value_from_buffer(&zero), Ok(None)));
    // a key with a zero timestamp is vacant too
    let mut p = vec![0u8; PARTITION_SIZE];
    p[..4].copy_from_slice(b"\x04abc");
    assert!(matches!(h.read_preface_from_header(header_bytes(&p)), Ok(None)));
}

#[test]
fn legacy_errors() {
    let mut h = IndexedFileHandle::new(0);
    let mut p = vec![0u8; PARTITION_SIZE];
    p[..4].copy_from_slice(&[4, 0xff, 0xff, 0xff]);
    p[5..13].copy_from_slice(&1u64.to_be_bytes());
    assert!(matches!(h.read_preface_from_header(header_bytes(&p)), Err(FileHandleError::KeyReadFailed)));
    // value bytes that are not UTF-8
    p[13..21].copy_from_slice(&1u64.to_be_bytes());
    p[21] = 0xff;
    assert!(matches!(h.read_value_from_buffer(&p), Err(FileHandleError::ReadDataAsStringFailed)));
    // a key too long for its size byte
    let r = h.write(Entry { key: "k".repeat(256), timestamp: 1, value: String::new() });
    assert!(matches!(r, Err(FileHandleError::KeySizeConversionFailed)));
    assert_eq!(h.key_size(), 256);
}

#[test]
fn legacy_transactor_timestamp_by_pattern() {
    let t = Transactor::new(IndexedFileHandle::new(0));
    assert_eq!(t.get_timestamp(&"{\"eventTransmissionTime\": 123,\"x\":1}".to_string()), Some(123));
    assert_eq!(t.get_timestamp(&"{\"eventTransmissionTime\":123}".to_string()), None);
    assert_eq!(t.get_timestamp(&"{\"eventTransmissionTime\":99999999999999999999,}".to_string()), None);
}

#[test]
fn legacy_transactor_store() {
    let mut t = Transactor::new(IndexedFileHandle::new(2));
    let (kw, uw) = t.store_at("p01".to_string(), 5, "v".to_string()).unwrap().ok().unwrap();
    assert_eq!((kw.offset, uw.offset), (4096, 4100));
    assert!(t.serves(&LatestRequested("p01".to_string())));
    assert!(t.store_at("p01".to_string(), 5, "w".to_string()).is_none());
    assert!(t.store_at("p02".to_string(), 6, "w".to_string()).is_none());
    let (kw, _) = t.store_at("p01".to_string(), 6, "w".to_string()).unwrap().ok().unwrap();
    assert_eq!(kw.data, b"\x03p01".to_vec());
    t.restore("p09".to_string(), 1);
    assert!(t.serves(&LatestRequested("p09".to_string())));
    assert_eq!(t.file().offset(), 4096);
}
