use iced_aksel::glyph_cache::{CacheKey, CachedGlyph, TextTessellationCache, CACHE_CAPACITY};

fn key(n: u64) -> CacheKey {
    (n, 0, 65, 12, 5, true, 1)
}

fn glyph(n: u32) -> CachedGlyph {
    CachedGlyph { vertices: vec![(n, n + 1), (n + 2, n + 3), (n + 4, n + 5)], indices: vec![0, 1, 2] }
}

#[test]
fn empty_glyph_is_empty() {
    let g = CachedGlyph::empty();
    assert!(g.is_empty());
    assert!(!glyph(1).is_empty());
    let only_vertices = CachedGlyph { vertices: vec![(0, 0)], indices: vec![] };
    assert!(only_vertices.is_empty());
}

#[test]
fn cache_reads_back_what_was_inserted() {
    let mut cache = TextTessellationCache::new();
    assert!(cache.get(key(1)).is_none());
    cache.insert(key(1), glyph(10));
    cache.insert(key(2), CachedGlyph::empty());
    assert_eq!(cache.get(key(1)).unwrap().vertices, glyph(10).vertices);
    assert!(cache.get(key(2)).unwrap().is_empty());
    // Replacing keeps one entry for the key.
    cache.insert(key(1), glyph(20));
    assert_eq!(cache.get(key(1)).unwrap().vertices[0], (20, 21));
}

#[test]
fn cache_keys_differ_by_every_field() {
    let mut cache = TextTessellationCache::new();
    cache.insert((1, 0, 65, 12, 5, true, 1), glyph(1));
    assert!(cache.get((1, 0, 65, 12, 5, false, 1)).is_none());
    assert!(cache.get((1, 0, 65, 12, 5, true, 2)).is_none());
    assert!(cache.get((1, 1, 65, 12, 5, true, 1)).is_none());
    assert!(cache.get((1, 0, 65, 12, 5, true, 1)).is_some());
}

#[test]
fn cache_drops_least_recently_used_when_full() {
    let mut cache = TextTessellationCache::new();
    assert_eq!(CACHE_CAPACITY, 2000);
    for n in 0..CACHE_CAPACITY as u64 {
        cache.insert(key(n), glyph(n as u32));
    }
    // Touch the oldest entry so the second oldest is dropped instead.
    assert!(cache.get(key(0)).is_some());
    cache.insert(key(5000), glyph(7));
    assert!(cache.get(key(0)).is_some());
    assert!(cache.get(key(1)).is_none());
    assert!(cache.get(key(5000)).is_some());
    let held = (0..6000u64).filter(|&n| cache.get(key(n)).is_some()).count();
    assert_eq!(held, CACHE_CAPACITY);
}

#[test]
fn cache_clear_drops_everything() {
    let mut cache = TextTessellationCache::new();
    cache.insert(key(1), glyph(1));
    cache.insert(key(2), glyph(2));
    cache.clear();
    assert!(cache.get(key(1)).is_none());
    assert!(cache.get(key(2)).is_none());
    cache.insert(key(3), glyph(3));
    assert!(cache.get(key(3)).is_some());
}
