use std::collections::BTreeMap;

use candid::de::IDLDeserialize;
use doodle_ic_api::durable::DurableMemory;
use doodle_ic_api::error::PersistError;
use doodle_ic_api::header::MemoryHeader;
use doodle_ic_api::snapshot::{check_envelope, load_snapshot, save_snapshot};
use doodle_ic_api::store::BlobStore;

fn encode(store: &BlobStore) -> Vec<u8> {
    candid::encode_one(&store.data).unwrap()
}

fn decode(bytes: &[u8]) -> BlobStore {
    let mut de = IDLDeserialize::new(bytes).unwrap();
    let data: BTreeMap<usize, Vec<u8>> = de.get_value().unwrap();
    BlobStore { data }
}

#[test]
fn envelope_tag_is_checked() {
    assert_eq!(check_envelope(b"DIDL"), Ok(()));
    assert_eq!(check_envelope(b"DIDL\x00\x00"), Ok(()));
    assert_eq!(check_envelope(b"DID"), Err(PersistError::BadEnvelope));
    assert_eq!(check_envelope(b"XIDL\x00"), Err(PersistError::BadEnvelope));
    assert_eq!(check_envelope(b""), Err(PersistError::BadEnvelope));
}

#[test]
fn load_of_empty_storage_is_refused() {
    let mem = DurableMemory::new(2);
    assert_eq!(load_snapshot(&mem), Err(PersistError::BadEnvelope));
}

#[test]
fn save_refuses_bytes_without_tag() {
    let mut mem = DurableMemory::new(2);
    assert_eq!(save_snapshot(&mut mem, &[1, 2, 3, 4, 5]), Err(PersistError::BadEnvelope));
    assert_eq!(mem.page_count(), 0);
}

#[test]
fn save_refuses_envelope_larger_than_storage_can_grow() {
    let mut mem = DurableMemory::new(1);
    let mut envelope = b"DIDL".to_vec();
    envelope.resize(65537, 1);
    assert_eq!(save_snapshot(&mut mem, &envelope), Err(PersistError::OutOfMemory));
    assert_eq!(mem.page_count(), 0);
}

#[test]
fn load_returns_the_saved_envelope_and_the_rest_of_the_pages() {
    let mut mem = DurableMemory::new(2);
    assert_eq!(save_snapshot(&mut mem, b"DIDL\x01\x02"), Ok(()));
    let bytes = load_snapshot(&mem).unwrap();
    assert_eq!(bytes.len(), 65536);
    assert_eq!(&bytes[..6], b"DIDL\x01\x02");
    assert!(bytes[6..].iter().all(|b| *b == 0));
}

#[test]
fn snapshot_round_trip() {
    let mut store = BlobStore::new();
    store.push(vec![10; 70000]);
    store.push(vec![]);
    store.push(vec![255, 0, 255]);
    let mut mem = DurableMemory::new(8);
    assert_eq!(save_snapshot(&mut mem, &encode(&store)), Ok(()));
    let restored = decode(&load_snapshot(&mem).unwrap());
    assert_eq!(restored.data, store.data);
}

#[test]
fn load_twice_gives_the_same_store() {
    let mut store = BlobStore::new();
    store.push(vec![1]);
    let mut mem = DurableMemory::new(2);
    assert_eq!(save_snapshot(&mut mem, &encode(&store)), Ok(()));
    let first = decode(&load_snapshot(&mem).unwrap());
    let second = decode(&load_snapshot(&mem).unwrap());
    assert_eq!(first.data, second.data);
}

#[test]
fn smaller_snapshot_over_a_larger_one_loads_as_the_smaller() {
    let mut big = BlobStore::new();
    big.push(vec![3; 1000]);
    big.push(vec![4; 1000]);
    let mut small = BlobStore::new();
    small.push(vec![9]);
    let mut mem = DurableMemory::new(2);
    assert_eq!(save_snapshot(&mut mem, &encode(&big)), Ok(()));
    assert_eq!(save_snapshot(&mut mem, &encode(&small)), Ok(()));
    assert_eq!(decode(&load_snapshot(&mem).unwrap()).data, small.data);
}

#[test]
fn save_restart_load_scenario() {
    let mut store = BlobStore::new();
    assert_eq!(store.push(vec![1, 2, 3]), 0);
    assert_eq!(store.push(vec![4, 5]), 1);
    let mut mem = DurableMemory::new(16);
    assert_eq!(save_snapshot(&mut mem, &encode(&store)), Ok(()));
    drop(store);
    let mut store = BlobStore::new();
    assert_eq!(store.len(), 0);
    store = decode(&load_snapshot(&mem).unwrap());
    let mut expected = BTreeMap::new();
    expected.insert(0usize, vec![1u8, 2, 3]);
    expected.insert(1usize, vec![4u8, 5]);
    assert_eq!(store.data, expected);
    assert!(MemoryHeader::from_pages(1, mem.page_count()).stable_size > 0);
}
