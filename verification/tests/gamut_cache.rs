use themalingadingdong::gamut_map::{GamutCache, HUE_BUCKETS, J_BUCKETS};

#[test]
fn new_cache_is_empty() {
    let cache: GamutCache<f32> = GamutCache::new();
    assert_eq!(J_BUCKETS, 1000);
    assert_eq!(HUE_BUCKETS, 3600);
    assert_eq!(cache.get(0, 0), None);
    assert_eq!(cache.get(500, 1800), None);
    assert_eq!(cache.get(999, 3599), None);
}

#[test]
fn read_after_write() {
    let mut cache: GamutCache<f32> = GamutCache::new();
    cache.put(500, 1800, 42.5);
    assert_eq!(cache.get(500, 1800), Some(42.5));
    assert_eq!(cache.get(500, 1801), None);
    assert_eq!(cache.get(501, 1800), None);
    cache.put(500, 1800, 7.25);
    assert_eq!(cache.get(500, 1800), Some(7.25));
}

#[test]
fn hue_buckets_wrap_around() {
    let mut cache: GamutCache<f32> = GamutCache::new();
    cache.put(500, 0, 12.0);
    assert_eq!(cache.get(500, 3600), Some(12.0));
    assert_eq!(cache.get(500, 7200), Some(12.0));
}

#[test]
fn lightness_buckets_clamp_to_last() {
    let mut cache: GamutCache<f32> = GamutCache::new();
    cache.put(5000, 10, 3.0);
    assert_eq!(cache.get(999, 10), Some(3.0));
    assert_eq!(cache.get(1000, 10), Some(3.0));
    assert_eq!(cache.get(998, 10), None);
}

#[test]
fn clear_empties_every_bucket() {
    let mut cache: GamutCache<f32> = GamutCache::new();
    cache.put(0, 0, 1.0);
    cache.put(999, 3599, 2.0);
    cache.put(250, 900, 3.0);
    cache.clear();
    assert_eq!(cache.get(0, 0), None);
    assert_eq!(cache.get(999, 3599), None);
    assert_eq!(cache.get(250, 900), None);
}
