use mediadownloader::blobs::{retrieve_blob, retrieve_images};
use mediadownloader::downloader::{download_images_from_map, was_image_already_downloaded,
    was_video_already_downloaded};
use mediadownloader::errors::MediaDownloaderError;
use mediadownloader::metadata_store::{Builder, MetadataStore, RedisBuilder, RedisConfig};

#[test]
fn store_get_set_del_roundtrip() {
    let mut store = MetadataStore::new();
    assert!(store.get("k").is_none());
    store.set("k", "v1");
    assert_eq!(store.get("k").unwrap(), "v1");
    store.set("k", "v2");
    assert_eq!(store.get("k").unwrap(), "v2");
    store.del("k");
    assert!(store.get("k").is_none());
}

#[test]
fn scan_reports_every_entry_with_its_expiry() {
    let mut store = MetadataStore::new();
    store.set("a", "pa");
    store.set("b", "pb");
    let archive = store.retrieve_metadata();
    assert_eq!(archive.values.len(), 2);
    assert_eq!(archive.values[0].key, "a");
    assert_eq!(archive.values[0].value, "pa");
    assert_eq!(archive.values[0].ttl, Some(86400));
    assert_eq!(archive.values[1].key, "b");
}

#[test]
fn video_dedup_downloads_at_most_once() {
    // Two identical requests: the first misses and records the path, the
    // second observes the hit and asks for no work.
    let mut store = MetadataStore::new();
    let first = was_video_already_downloaded(&mut store, "res1");
    let second = was_video_already_downloaded(&mut store, "res1");
    assert!(!first);
    assert!(second);
    assert_eq!(store.get("res1").unwrap(), "/tmp/media_downloaded/res1.mp4");
}

#[test]
fn image_dedup_keys_carry_the_index() {
    let mut store = MetadataStore::new();
    assert!(!was_image_already_downloaded(&mut store, "res1", 0));
    assert!(was_image_already_downloaded(&mut store, "res1", 0));
    assert!(!was_image_already_downloaded(&mut store, "res1", 1));
    assert_eq!(
        store.get("res1_0").unwrap(),
        "/tmp/media_downloaded/images/res1_0.jpeg"
    );
}

#[test]
fn image_download_pass_asks_only_for_misses() {
    let mut store = MetadataStore::new();
    let images = vec![
        (0, "https://i.example/a.jpeg".to_string()),
        (2, "https://i.example/c.jpeg".to_string()),
    ];
    let (work, count) = download_images_from_map(&mut store, &images, "res1");
    assert_eq!(count, 2);
    assert_eq!(
        work,
        vec![
            (
                0,
                "https://i.example/a.jpeg".to_string(),
                "/tmp/media_downloaded/images/res1_0.jpeg".to_string()
            ),
            (
                2,
                "https://i.example/c.jpeg".to_string(),
                "/tmp/media_downloaded/images/res1_2.jpeg".to_string()
            ),
        ]
    );
    // the second identical pass observes the hits and asks for nothing
    let (work2, count2) = download_images_from_map(&mut store, &images, "res1");
    assert_eq!(count2, 2);
    assert!(work2.is_empty());
}

#[test]
fn missing_file_purges_the_stale_key_and_rearms_the_download() {
    // Self-healing: a key without a backing file is deleted, and the next
    // identical request downloads afresh instead of hitting a dead key.
    let mut store = MetadataStore::new();
    assert!(!was_video_already_downloaded(&mut store, "res1"));
    let r = retrieve_blob(&mut store, "res1", None);
    assert!(matches!(r, Err(MediaDownloaderError::BlobRetrievingError)));
    assert!(store.get("res1").is_none());
    assert!(!was_video_already_downloaded(&mut store, "res1"));
}

#[test]
fn video_size_boundary_is_exact() {
    let mut store = MetadataStore::new();
    let at_cap = retrieve_blob(&mut store, "res1", Some(50 * 1024 * 1024));
    assert_eq!(at_cap.unwrap(), "/tmp/media_downloaded/res1.mp4");
    let over_cap = retrieve_blob(&mut store, "res1", Some(50 * 1024 * 1024 + 1));
    assert!(matches!(over_cap, Err(MediaDownloaderError::FileSizeExceeded)));
}

#[test]
fn image_retrieval_skips_and_heals_per_image() {
    let mut store = MetadataStore::new();
    store.set("res1_0", "p0");
    store.set("res1_1", "p1");
    store.set("res1_2", "p2");
    let sizes = vec![Some(100u64), None, Some(10 * 1024 * 1024 + 1)];
    let paths = retrieve_images(&mut store, "res1", &sizes).unwrap();
    assert_eq!(paths, vec!["/tmp/media_downloaded/images/res1_0.jpeg".to_string()]);
    // the missing image's key was purged, the others stay
    assert!(store.get("res1_1").is_none());
    assert!(store.get("res1_0").is_some());
    assert!(store.get("res1_2").is_some());
}

#[test]
fn empty_surviving_image_set_is_an_error() {
    let mut store = MetadataStore::new();
    let sizes = vec![None, Some(10 * 1024 * 1024 + 1)];
    let r = retrieve_images(&mut store, "res1", &sizes);
    assert!(matches!(r, Err(MediaDownloaderError::ImagesNotDownloaded)));
}

#[test]
fn image_at_its_cap_is_kept() {
    let mut store = MetadataStore::new();
    let sizes = vec![Some(10 * 1024 * 1024)];
    let paths = retrieve_images(&mut store, "res1", &sizes).unwrap();
    assert_eq!(paths.len(), 1);
}

#[test]
fn builder_defaults_host_and_port() {
    let config = RedisConfig {
        username: "user".to_string(),
        password: "pass".to_string(),
        channel: "channel_1".to_string(),
        host: None,
        port: None,
    };
    let builder = RedisBuilder::from_config(&config);
    assert_eq!(builder.username, "user");
    assert_eq!(builder.password, "pass");
    assert_eq!(builder.host, Some("localhost".to_string()));
    assert_eq!(builder.port, Some(6379));
}

#[test]
fn builder_keeps_configured_host_and_port() {
    let config = RedisConfig {
        username: "user".to_string(),
        password: "pass".to_string(),
        channel: "channel_1".to_string(),
        host: Some("redis.internal".to_string()),
        port: Some(6380),
    };
    let builder = RedisBuilder::from_config(&config);
    assert_eq!(builder.host, Some("redis.internal".to_string()));
    assert_eq!(builder.port, Some(6380));
}
