use vidcore::frame::{black_frame, RenderedFrame};
use vidcore::frame_cache::FrameCache;
use vidcore::frame_queue::FrameQueue;

fn small_frame(timestamp_ms: i64) -> RenderedFrame {
    RenderedFrame { width: 960, height: 540, data: vec![0u8; 100], is_yuv: false, timestamp_ms }
}

#[test]
fn test_frame_cache_lru() {
    let mut cache = FrameCache::new(3, 100 * 1024 * 1024);

    for i in 0..3 {
        cache.put(String::from("test.mp4"), i * 33, small_frame(i * 33));
    }
    assert_eq!(cache.entries.len(), 3);

    cache.put(String::from("test.mp4"), 99, small_frame(99));
    assert_eq!(cache.entries.len(), 3);
    assert!(cache.get("test.mp4", 0).is_none());
    assert!(cache.get("test.mp4", 33).is_some());
    assert!(cache.get("test.mp4", 66).is_some());
    assert!(cache.get("test.mp4", 99).is_some());
}

#[test]
fn test_frame_cache_hit_miss() {
    let mut cache = FrameCache::new(10, 100 * 1024 * 1024);

    cache.put(String::from("test.mp4"), 0, small_frame(0));

    assert!(cache.get("test.mp4", 0).is_some());
    assert_eq!(cache.hit_count, 1);
    assert_eq!(cache.miss_count, 0);

    assert!(cache.get("test.mp4", 100).is_none());
    assert_eq!(cache.hit_count, 1);
    assert_eq!(cache.miss_count, 1);
}

#[test]
fn test_black_frame() {
    let frame = black_frame(1000);
    assert_eq!(frame.width, 960);
    assert_eq!(frame.height, 540);
    assert_eq!(frame.data.len(), (960 * 540 * 4) as usize);
    assert!(frame.data.iter().all(|&b| b == 0));
}

#[test]
fn cache_hit_moves_entry_to_most_recent() {
    // A hit makes the entry survive the next eviction of a full cache.
    let mut cache = FrameCache::new(3, 100 * 1024 * 1024);
    cache.put(String::from("a.mp4"), 0, small_frame(0));
    cache.put(String::from("a.mp4"), 33, small_frame(33));
    cache.put(String::from("a.mp4"), 66, small_frame(66));

    // Touch the oldest entry, then insert a fresh key into the full cache.
    assert!(cache.get("a.mp4", 0).is_some());
    cache.put(String::from("a.mp4"), 99, small_frame(99));

    assert!(cache.get("a.mp4", 0).is_some());
    assert!(cache.get("a.mp4", 33).is_none());
}

#[test]
fn cache_byte_cap_evicts_oldest() {
    // Three 100-byte frames exceed a 250-byte cap: the oldest leaves.
    let mut cache = FrameCache::new(100, 250);
    cache.put(String::from("a.mp4"), 0, small_frame(0));
    cache.put(String::from("a.mp4"), 1, small_frame(1));
    cache.put(String::from("a.mp4"), 2, small_frame(2));
    assert_eq!(cache.entries.len(), 2);
    assert!(cache.get("a.mp4", 0).is_none());
    assert!(cache.get("a.mp4", 1).is_some());
    assert!(cache.get("a.mp4", 2).is_some());
}

#[test]
fn cache_replaces_entry_under_same_key() {
    let mut cache = FrameCache::new(3, 100 * 1024 * 1024);
    cache.put(String::from("a.mp4"), 0, small_frame(5));
    cache.put(String::from("a.mp4"), 0, small_frame(7));
    assert_eq!(cache.entries.len(), 1);
    let hit = cache.get("a.mp4", 0).unwrap();
    assert_eq!(hit.timestamp_ms, 7);
}

#[test]
fn queue_push_evicts_oldest_past_capacity() {
    let mut q = FrameQueue::new();
    for i in 0..20 {
        q.push(small_frame(i));
    }
    assert_eq!(q.len(), 16);
    // The four oldest frames are gone.
    assert!(q.peek_nearest(0, 0).is_none());
    assert!(q.peek_nearest(3, 0).is_none());
    assert!(q.peek_nearest(4, 0).is_some());
    assert!(q.peek_nearest(19, 0).is_some());
}

#[test]
fn queue_peek_nearest_prefers_closest() {
    let mut q = FrameQueue::new();
    q.push(small_frame(0));
    q.push(small_frame(33));
    q.push(small_frame(66));

    let got = q.peek_nearest(40, 50).unwrap();
    assert_eq!(got.timestamp_ms, 33);
    // Peeking does not consume.
    assert_eq!(q.len(), 3);
    // Out of tolerance: nothing.
    assert!(q.peek_nearest(200, 50).is_none());
}

#[test]
fn queue_pop_takes_oldest() {
    let mut q = FrameQueue::new();
    q.push(small_frame(1));
    q.push(small_frame(2));
    let first = q.pop().unwrap();
    assert_eq!(first.timestamp_ms, 1);
    assert_eq!(q.len(), 1);
    q.clear();
    assert_eq!(q.len(), 0);
    assert!(q.pop().is_none());
}
