use tracker_proxy::cache::CacheStore;
use tracker_proxy::cache::CachedResponse;

fn resp(status: u16, body: &[u8]) -> CachedResponse {
    CachedResponse { status, body: body.to_vec(), content_type: Some(b"text/plain".to_vec()) }
}

#[test]
fn get_on_empty_store_misses() {
    let store = CacheStore::new(600, 10);
    assert!(store.get(b"/foo", 0).is_none());
}

#[test]
fn insert_then_get_within_ttl_hits() {
    let mut store = CacheStore::new(600, 10);
    store.insert(b"/foo?a=1".to_vec(), resp(200, b"hello"), 100);
    let hit = store.get(b"/foo?a=1", 100).unwrap();
    assert_eq!(hit.status, 200);
    assert_eq!(hit.body, b"hello".to_vec());
    assert!(store.get(b"/foo?a=1", 699).is_some());
}

#[test]
fn second_insert_wins() {
    let mut store = CacheStore::new(600, 10);
    store.insert(b"/k".to_vec(), resp(200, b"first"), 10);
    store.insert(b"/k".to_vec(), resp(201, b"second"), 20);
    let hit = store.get(b"/k", 25).unwrap();
    assert_eq!(hit.status, 201);
    assert_eq!(hit.body, b"second".to_vec());
    assert_eq!(store.entry_count(), 1);
}

#[test]
fn entry_expires_at_ttl_boundary() {
    let mut store = CacheStore::new(10, 10);
    store.insert(b"/k".to_vec(), resp(200, b"x"), 100);
    assert!(store.get(b"/k", 109).is_some());
    assert!(store.get(b"/k", 110).is_none());
    assert!(store.get(b"/k", 200).is_none());
}

#[test]
fn capacity_is_never_exceeded() {
    let mut store = CacheStore::new(600, 2);
    store.insert(b"/a".to_vec(), resp(200, b"a"), 1);
    store.insert(b"/b".to_vec(), resp(200, b"b"), 2);
    store.insert(b"/c".to_vec(), resp(200, b"c"), 3);
    assert_eq!(store.entry_count(), 2);
    // The oldest entry went.
    assert!(store.get(b"/a", 4).is_none());
    assert!(store.get(b"/b", 4).is_some());
    assert!(store.get(b"/c", 4).is_some());
}

#[test]
fn many_inserts_stay_bounded() {
    let mut store = CacheStore::new(600, 3);
    for i in 0..50u64 {
        let key = format!("/item/{}", i).into_bytes();
        store.insert(key, resp(200, b"v"), i);
        assert!(store.entry_count() <= 3);
    }
    assert_eq!(store.entry_count(), 3);
}

#[test]
fn zero_capacity_stores_nothing() {
    let mut store = CacheStore::new(600, 0);
    store.insert(b"/k".to_vec(), resp(200, b"x"), 1);
    assert_eq!(store.entry_count(), 0);
    assert!(store.get(b"/k", 1).is_none());
}

#[test]
fn reinsert_refreshes_ttl() {
    let mut store = CacheStore::new(10, 10);
    store.insert(b"/k".to_vec(), resp(200, b"old"), 100);
    store.insert(b"/k".to_vec(), resp(200, b"new"), 108);
    assert!(store.get(b"/k", 112).is_some());
    assert!(store.get(b"/k", 118).is_none());
}

#[test]
fn stats_reflect_store_state() {
    let mut store = CacheStore::new(600, 10000);
    store.insert(b"/a".to_vec(), resp(200, b"a"), 1);
    store.insert(b"/b".to_vec(), resp(200, b"b"), 2);
    let s = store.stats();
    assert_eq!(s.entry_count, 2);
    assert_eq!(s.weighted_size, 2);
    assert_eq!(s.ttl_seconds, 600);
    assert_eq!(s.max_capacity, 10000);
    assert_eq!(store.ttl_seconds(), 600);
    assert_eq!(store.max_capacity(), 10000);
}

#[test]
fn cloned_response_is_equal() {
    let r = resp(200, b"payload");
    let c = r.clone();
    assert_eq!(c.status, r.status);
    assert_eq!(c.body, r.body);
    assert_eq!(c.content_type, r.content_type);
}
