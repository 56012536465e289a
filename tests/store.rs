use doodle_ic_api::header::MemoryHeader;
use doodle_ic_api::store::BlobStore;

#[test]
fn push_assigns_dense_keys() {
    let mut store = BlobStore::new();
    assert_eq!(store.len(), 0);
    assert_eq!(store.push(vec![1, 2, 3]), 0);
    assert_eq!(store.push(vec![4, 5]), 1);
    assert_eq!(store.push(vec![]), 2);
    assert_eq!(store.len(), 3);
    assert_eq!(store.get(0), Some(&vec![1, 2, 3]));
    assert_eq!(store.get(1), Some(&vec![4, 5]));
    assert_eq!(store.get(2), Some(&vec![]));
    assert_eq!(store.get(3), None);
}

#[test]
fn push_into_sparse_store_replaces_the_entry_at_the_count() {
    let mut store = BlobStore::new();
    store.data.insert(1, vec![9]);
    assert_eq!(store.push(vec![7]), 1);
    assert_eq!(store.len(), 1);
    assert_eq!(store.get(1), Some(&vec![7]));
    assert_eq!(store.get(0), None);
}

#[test]
fn header_sizes_follow_page_counts() {
    let h = MemoryHeader::from_pages(2, 3);
    assert_eq!(h.heap_pages, 2);
    assert_eq!(h.heap_size, 131072);
    assert_eq!(h.stable_pages, 3);
    assert_eq!(h.stable_size, 196608);
    assert_eq!(h.all, 327680);
    assert_eq!(h.all, h.heap_size + h.stable_size);
}

#[test]
fn header_of_empty_tiers_is_zero() {
    let h = MemoryHeader::from_pages(0, 0);
    assert_eq!(h, MemoryHeader { heap_pages: 0, heap_size: 0, stable_pages: 0, stable_size: 0, all: 0 });
}
