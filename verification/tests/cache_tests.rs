use photoqt::cache::PreviewCache;
use photoqt::imaging::PreviewImage;

fn preview(gray: u8) -> PreviewImage {
    PreviewImage { width: 1, height: 1, pixels: vec![gray, gray, gray, 255] }
}

fn keys_of(cache: &PreviewCache) -> Vec<String> {
    cache.entries.iter().map(|e| e.0.clone()).collect()
}

#[test]
fn holds_the_most_recent_bound_keys_after_distinct_inserts() {
    let mut cache = PreviewCache::new(3);
    for (i, name) in ["a", "b", "c", "d", "e"].iter().enumerate() {
        cache.insert(name.to_string(), preview(i as u8));
    }
    assert_eq!(cache.len(), 3);
    assert_eq!(keys_of(&cache), vec!["c".to_string(), "d".to_string(), "e".to_string()]);
}

#[test]
fn fewer_inserts_than_bound_keeps_everything() {
    let mut cache = PreviewCache::new(13);
    cache.insert("a".to_string(), preview(1));
    cache.insert("b".to_string(), preview(2));
    assert_eq!(cache.len(), 2);
    assert!(cache.contains(&"a".to_string()));
    assert!(cache.contains(&"b".to_string()));
}

#[test]
fn reinserting_a_cached_key_changes_nothing() {
    let mut cache = PreviewCache::new(2);
    cache.insert("a".to_string(), preview(1));
    cache.insert("b".to_string(), preview(2));
    cache.insert("a".to_string(), preview(9));
    assert_eq!(keys_of(&cache), vec!["a".to_string(), "b".to_string()]);
    let found = cache.get(&"a".to_string()).unwrap();
    assert_eq!(found.pixels[0], 1);
}

#[test]
fn eviction_is_fifo_not_lru() {
    let mut cache = PreviewCache::new(2);
    cache.insert("a".to_string(), preview(1));
    cache.insert("b".to_string(), preview(2));
    assert!(cache.get(&"a".to_string()).is_some());
    cache.insert("c".to_string(), preview(3));
    assert!(!cache.contains(&"a".to_string()));
    assert!(cache.contains(&"b".to_string()));
    assert!(cache.contains(&"c".to_string()));
}

#[test]
fn get_returns_the_stored_preview() {
    let mut cache = PreviewCache::new(4);
    cache.insert("x".to_string(), preview(7));
    let found = cache.get(&"x".to_string()).unwrap();
    assert_eq!(found.width, 1);
    assert_eq!(found.height, 1);
    assert_eq!(found.pixels, vec![7, 7, 7, 255]);
    assert!(cache.get(&"y".to_string()).is_none());
}
