use bytes::Bytes;
use moka::future::Cache;
use moqtail::track_cache::{
    bytes_after_eviction, bytes_after_insertion, eviction_log_entry, group_bounds, group_bytes,
    with_object, CacheKey, CacheStats, EvictionCause, TrackCache,
};
use tokio::runtime::{Builder, Runtime};

fn runtime() -> Runtime {
    Builder::new_current_thread().enable_all().build().unwrap()
}

/// A track's cache with the payload bytes that it counts.
struct Held {
    track: TrackCache<Vec<Bytes>>,
    bytes: u64,
}

fn empty() -> Held {
    Held { track: TrackCache::new(1, Cache::new(100)), bytes: 0 }
}

async fn add_object(held: &mut Held, group_id: u64) {
    let payload = Bytes::from_static(b"x");
    let key = CacheKey::new(held.track.relay_track_id, group_id);
    held.bytes = bytes_after_insertion(held.bytes, payload.len() as u64);
    let group = with_object(held.track.cache.get(&key).await, payload);
    held.track.cache.insert(key, group).await;
    held.track.cache.run_pending_tasks().await;
}

#[test]
fn oldest_group_id_returns_none_when_empty() {
    let held = empty();
    assert_eq!(held.track.oldest_group_id(), None);
    assert_eq!(held.track.newest_group_id(), None);
}

#[test]
fn oldest_and_newest_group_id_track_the_present_groups() {
    runtime().block_on(async {
        let mut held = empty();
        add_object(&mut held, 7).await;
        add_object(&mut held, 5).await;
        add_object(&mut held, 9).await;
        assert_eq!(held.track.oldest_group_id(), Some(5));
        assert_eq!(held.track.newest_group_id(), Some(9));
    });
}

#[test]
fn stats_count_groups_and_payload_bytes() {
    runtime().block_on(async {
        let mut held = empty();
        add_object(&mut held, 3).await;
        add_object(&mut held, 3).await;
        add_object(&mut held, 4).await;
        let s = held.track.stats(held.bytes);
        assert_eq!(s.groups, 2);
        assert_eq!(s.bytes, 3, "one byte per test payload");
        assert_eq!(s.oldest_group, Some(3));
        assert_eq!(s.newest_group, Some(4));
    });
}

#[test]
fn group_bounds_handle_single_group() {
    runtime().block_on(async {
        let mut held = empty();
        add_object(&mut held, 42).await;
        assert_eq!(held.track.oldest_group_id(), Some(42));
        assert_eq!(held.track.newest_group_id(), Some(42));
    });
}

#[test]
fn groups_of_other_tracks_are_left_out() {
    let keys = vec![CacheKey::new(2, 1), CacheKey::new(1, 8), CacheKey::new(1, 3), CacheKey::new(2, 9)];
    assert_eq!(group_bounds(&keys, 1), (Some(3), Some(8)));
    assert_eq!(group_bounds(&keys, 2), (Some(1), Some(9)));
    assert_eq!(group_bounds(&keys, 3), (None, None));
    assert_eq!(group_bounds(&vec![], 1), (None, None));
    runtime().block_on(async {
        let held = empty();
        held.track.cache.insert(CacheKey::new(2, 6), vec![]).await;
        held.track.cache.run_pending_tasks().await;
        assert_eq!(
            held.track.stats(11),
            CacheStats { groups: 1, bytes: 11, oldest_group: None, newest_group: None }
        );
    });
}

#[test]
fn eviction_gives_back_what_insertion_took() {
    let group = group_bytes(&vec![10, 0, 32]);
    assert_eq!(group, 42);
    assert_eq!(bytes_after_eviction(bytes_after_insertion(100, group), group), 100);
    assert_eq!(bytes_after_eviction(5, group), 0);
    assert_eq!(bytes_after_insertion(u64::MAX, 2), 1);
    assert_eq!(group_bytes(&vec![]), 0);
}

#[test]
fn objects_are_kept_in_the_order_of_their_arrival() {
    assert_eq!(with_object(None, 1), vec![1]);
    assert_eq!(with_object(Some(vec![3, 1]), 2), vec![3, 1, 2]);
}

#[test]
fn evictions_are_written_down() {
    assert_eq!(eviction_log_entry(4, 17, 30, EvictionCause::Size), "4,17,30,SIZE\n");
    assert_eq!(eviction_log_entry(0, 0, 0, EvictionCause::Expired), "0,0,0,EXPIRED\n");
    assert_eq!(EvictionCause::Explicit.name(), "EXPLICIT");
    assert_eq!(EvictionCause::Replaced.name(), "REPLACED");
    assert_eq!(EvictionCause::Replaced.label(), "Replaced");
    assert_eq!(CacheKey::new(12, 34).to_string(), "track:12_group:34");
}
