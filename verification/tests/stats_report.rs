use tracker_proxy::cache::CacheStats;
use tracker_proxy::cache::CacheStore;
use tracker_proxy::cache::CachedResponse;
use tracker_proxy::stats::report;
use tracker_proxy::stats::stats_json;

#[test]
fn stats_render_as_exact_json() {
    let s = CacheStats { entry_count: 5, weighted_size: 5, ttl_seconds: 600, max_capacity: 10000 };
    assert_eq!(
        stats_json(&s),
        b"{\"entry_count\": 5, \"weighted_size\": 5, \"ttl_seconds\": 600, \"max_capacity\": 10000}"
            .to_vec()
    );
}

#[test]
fn zero_values_render() {
    let s = CacheStats { entry_count: 0, weighted_size: 0, ttl_seconds: 0, max_capacity: 0 };
    assert_eq!(
        stats_json(&s),
        b"{\"entry_count\": 0, \"weighted_size\": 0, \"ttl_seconds\": 0, \"max_capacity\": 0}"
            .to_vec()
    );
}

#[test]
fn report_reads_the_store() {
    let mut store = CacheStore::new(60, 100);
    store.insert(
        b"/a".to_vec(),
        CachedResponse { status: 200, body: b"a".to_vec(), content_type: None },
        1,
    );
    assert_eq!(
        report(&store),
        b"{\"entry_count\": 1, \"weighted_size\": 1, \"ttl_seconds\": 60, \"max_capacity\": 100}"
            .to_vec()
    );
}
