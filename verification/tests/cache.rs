use ssg::cache::{hash_bytes, hash_directory, BuildCache, FileContent};

#[test]
fn test_cache_needs_rebuild() {
    let cache = BuildCache::new();

    // New file should need rebuild
    assert!(cache.needs_rebuild("test.md", "abc123", "def456"));
}

#[test]
fn test_cache_update_entry() {
    let mut cache = BuildCache::new();

    cache.update_entry(
        "test.md",
        "abc123".to_string(),
        "def456".to_string(),
        "dist/test/index.html".to_string(),
    );

    assert!(!cache.needs_rebuild("test.md", "abc123", "def456"));
    assert!(cache.needs_rebuild("test.md", "different_hash", "def456"));
}

#[test]
fn test_hash_file() {
    let hash1 = hash_bytes(b"Hello, world!");
    let hash2 = hash_bytes(b"Hello, world!");

    // Same content should produce same hash
    assert_eq!(hash1, hash2);
    assert_eq!(hash1.len(), 64); // Blake3 produces 32-byte hash (64 hex chars)
}

#[test]
fn hash_is_blake3_in_lower_case_hex() {
    assert_eq!(
        hash_bytes(b""),
        "af1349b9f5f9a1a6a0404dea36dcc9499bcb25c9adc112b7cc9a93cae41f3262"
    );
    assert_ne!(hash_bytes(b"a"), hash_bytes(b"b"));
}

#[test]
fn template_change_asks_for_rebuild() {
    let mut cache = BuildCache::new();
    cache.record_build(
        "a.md",
        "h1".to_string(),
        "t1".to_string(),
        "dist/a/index.html".to_string(),
        "2024-01-15T10:00:00+00:00".to_string(),
    );
    assert!(!cache.needs_rebuild("a.md", "h1", "t1"));
    assert!(cache.needs_rebuild("a.md", "h1", "t2"));
    assert!(cache.needs_rebuild("b.md", "h1", "t1"));
}

#[test]
fn update_replaces_the_entry_of_a_path() {
    let mut cache = BuildCache::new();
    cache.record_build("a.md", "h1".into(), "t".into(), "o1".into(), "then".into());
    cache.record_build("b.md", "h2".into(), "t".into(), "o2".into(), "then".into());
    cache.record_build("a.md", "h3".into(), "t".into(), "o3".into(), "now".into());
    assert_eq!(cache.entries.len(), 2);
    let a = cache.get("a.md").unwrap();
    assert_eq!(a.file_hash, "h3");
    assert_eq!(a.output_path, "o3");
    assert_eq!(a.built_at, "now");
    assert_eq!(cache.get("b.md").unwrap().file_hash, "h2");
    assert!(cache.get("c.md").is_none());
}

#[test]
fn update_entry_stamps_the_time() {
    let mut cache = BuildCache::new();
    cache.update_entry("a.md", "h".into(), "t".into(), "o".into());
    let stamp = &cache.get("a.md").unwrap().built_at;
    assert!(stamp.contains('T'));
    assert!(stamp.len() >= 20);
}

#[test]
fn directory_fingerprint_changes_with_any_file() {
    let files = |body: &[u8]| {
        vec![
            FileContent { path: "templates/a.html".into(), bytes: b"<a>".to_vec() },
            FileContent { path: "templates/b.html".into(), bytes: body.to_vec() },
        ]
    };
    let one = hash_directory(&files(b"<b>"));
    let same = hash_directory(&files(b"<b>"));
    let other = hash_directory(&files(b"<b class=x>"));
    assert_eq!(one, same);
    assert_ne!(one, other);
    assert_eq!(one.len(), 64);
    let expected = hash_bytes(
        format!(
            "templates/a.html:{}\ntemplates/b.html:{}\n",
            hash_bytes(b"<a>"),
            hash_bytes(b"<b>")
        )
        .as_bytes(),
    );
    assert_eq!(one, expected);
}
