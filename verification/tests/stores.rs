use tenken::database::{Database, ProbePayloadReceived, ProbeRequestReceived, Tenken as Cache};
use tenken::indexed_file_handle::IndexedFileHandle;
use tenken::messages::LatestRequested;
use tenken::partition::{HEADER_SIZE, PARTITION_SIZE};
use tenken::tenken::Tenken;
use tenken::transactor::Transactor;

fn header_for(key: &str, ts: u64) -> Vec<u8> {
    let mut h = vec![key.len() as u8];
    h.extend_from_slice(key.as_bytes());
    h.extend_from_slice(&ts.to_be_bytes());
    h.resize(HEADER_SIZE, 0);
    h
}

fn transactor(index: u64, header: Option<Vec<u8>>) -> Transactor {
    Transactor::new(IndexedFileHandle::new(index), header.as_deref())
}

fn apply(partition: &mut Vec<u8>, base: u64, offset: u64, data: &[u8]) {
    let at = (offset - base) as usize;
    partition[at..at + data.len()].copy_from_slice(data);
}

#[test]
fn transactor_recovers_state_from_header() {
    let t = transactor(0, Some(header_for("probe", 42)));
    assert_eq!(t.state, Some(("probe".to_string(), 42)));
    let vacant = transactor(1, Some(vec![0; HEADER_SIZE]));
    assert_eq!(vacant.state, None);
    let unreadable = transactor(2, None);
    assert_eq!(unreadable.state, None);
}

#[test]
fn transactor_accepts_only_newer_payloads_of_its_key() {
    let mut t = transactor(1, None);
    let w = t.store_stamped("probe".to_string(), 10, "v1".to_string()).unwrap();
    assert_eq!(w.offset, 2048);
    assert_eq!(w.data[0], 5);
    assert_eq!(t.state, Some(("probe".to_string(), 10)));
    let mut partition = vec![0u8; PARTITION_SIZE];
    apply(&mut partition, 2048, w.offset, &w.data);

    // older and equal timestamps are dropped
    assert!(t.store_stamped("probe".to_string(), 10, "v0".to_string()).is_none());
    assert!(t.store_stamped("probe".to_string(), 9, "v0".to_string()).is_none());
    // another key is dropped
    assert!(t.store_stamped("other".to_string(), 11, "x".to_string()).is_none());
    assert_eq!(t.state, Some(("probe".to_string(), 10)));

    // a newer payload is written just after the key
    let u = t.store_stamped("probe".to_string(), 11, "v2".to_string()).unwrap();
    assert_eq!(u.offset, 2048 + 6);
    apply(&mut partition, 2048, u.offset, &u.data);
    assert_eq!(t.state, Some(("probe".to_string(), 11)));

    let mut reader = IndexedFileHandle::new(1);
    let e = reader.read_from_buffer(&partition).unwrap();
    assert_eq!((e.key.as_str(), e.timestamp, e.value.as_str()), ("probe", 11, "v2"));
    assert_eq!(t.file().read_value_from_buffer(&partition), Some("v2".to_string()));
}

#[test]
fn transactor_store_reads_transmission_time() {
    let mut t = transactor(0, Some(header_for("p01", 100)));
    let older = "{\"eventTransmissionTime\":99}".to_string();
    assert!(t.store("p01".to_string(), older).is_none());
    let newer = "{\"eventTransmissionTime\":101}".to_string();
    let w = t.store("p01".to_string(), newer).unwrap();
    assert_eq!(w.offset, 4);
    assert_eq!(t.state, Some(("p01".to_string(), 101)));
    let value = String::from_utf8(w.data[16..].to_vec()).unwrap();
    assert!(value.starts_with("{\"eventTransmissionTime\":101,\"eventReceivedTime\":"));
}

#[test]
fn transactor_reads_unclosed_transmission_time_as_zero() {
    let mut t = transactor(0, Some(header_for("p01", 100)));
    assert!(t.store("p01".to_string(), "{\"eventTransmissionTime\":\"1".to_string()).is_none());
    assert_eq!(t.state, Some(("p01".to_string(), 100)));
}

#[test]
fn transactor_serves_its_own_key() {
    let mut t = transactor(0, Some(header_for("p01", 1)));
    assert!(t.serves(&LatestRequested("p01".to_string())));
    assert!(!t.serves(&LatestRequested("p02".to_string())));
    t.restore("p02".to_string(), 5);
    assert!(t.serves(&LatestRequested("p02".to_string())));
    assert!(!transactor(1, None).serves(&LatestRequested("p01".to_string())));
}

#[test]
fn index_routes_writes() {
    let ts = vec![
        transactor(0, Some(header_for("aaa", 1))),
        transactor(1, None),
        transactor(2, Some(header_for("bbb", 1))),
        transactor(3, None),
    ];
    let mut index = Tenken::new(&ts);
    assert_eq!(index.vacant_count(), 2);
    assert_eq!(index.get("aaa".to_string()), Some(0));
    assert_eq!(index.get("bbb".to_string()), Some(2));
    assert_eq!(index.get("ccc".to_string()), None);

    let (p, msg) = index.put("aaa".to_string(), "x".to_string()).unwrap();
    assert_eq!((p, msg.key.as_str(), msg.value.as_str()), (0, "aaa", "x"));

    let (p, _) = index.put("ccc".to_string(), "y".to_string()).unwrap();
    assert_eq!(p, 1);
    assert_eq!(index.get("ccc".to_string()), Some(1));
    let (p, _) = index.put("ddd".to_string(), "z".to_string()).unwrap();
    assert_eq!(p, 3);
    assert_eq!(index.vacant_count(), 0);
    // the database is full: a new probe is dropped
    assert!(index.put("eee".to_string(), "w".to_string()).is_none());
    assert_eq!(index.get("eee".to_string()), None);
    // known probes still go to their partitions
    assert_eq!(index.put("ccc".to_string(), "y2".to_string()).unwrap().0, 1);
}

#[test]
fn index_keeps_last_partition_of_a_repeated_key() {
    let ts = vec![transactor(0, Some(header_for("aaa", 1))), transactor(1, Some(header_for("aaa", 2)))];
    let mut index = Tenken::new(&ts);
    assert_eq!(index.get("aaa".to_string()), Some(1));
    assert!(index.put("zzz".to_string(), String::new()).is_none());
}

#[test]
fn cache_get_after_put() {
    let mut db = Cache::default();
    assert_eq!(db.get("p1".to_string()), None);
    db.put("p1".to_string(), "a".to_string());
    db.put("p2".to_string(), "b".to_string());
    db.put("p1".to_string(), "c".to_string());
    assert_eq!(db.get("p1".to_string()), Some("c".to_string()));
    assert_eq!(db.get("p2".to_string()), Some("b".to_string()));
    assert!(db.handle_payload(ProbePayloadReceived::new("p3".to_string(), "d".to_string())).is_ok());
    assert_eq!(db.handle_request(ProbeRequestReceived::new("p3".to_string())).unwrap(), Some("d".to_string()));
    assert_eq!(db.handle_request(ProbeRequestReceived::new("p4".to_string())).unwrap(), None);
}
