use companion::image_cache::{finish_download, image_url, lookup, mime_for, prefetch_record, CacheStep};

#[test]
fn content_type_follows_case_sensitive_extension() {
    assert_eq!(mime_for("champion/Ahri.png"), "image/png");
    assert_eq!(mime_for("icon.WEBP"), "application/octet-stream");
    assert_eq!(mime_for("a.jpg"), "image/jpeg");
    assert_eq!(mime_for("a.jpeg"), "image/jpeg");
    assert_eq!(mime_for("a.webp"), "image/webp");
    assert_eq!(mime_for("png"), "application/octet-stream");
    assert_eq!(mime_for(""), "application/octet-stream");
}

#[test]
fn remote_url_scheme() {
    assert_eq!(
        image_url("https://example.org", "champion/Ahri.png"),
        "https://example.org/images/game/champion/Ahri.png"
    );
}

#[test]
fn cached_asset_is_served_without_download() {
    assert!(matches!(lookup(true, "https://h", "a.png"), CacheStep::ServeLocal));
    match lookup(false, "https://h", "a.png") {
        CacheStep::Download(u) => assert_eq!(u, "https://h/images/game/a.png"),
        other => panic!("unexpected {:?}", other),
    }
}

#[test]
fn download_success_serves_the_fetched_bytes() {
    let (bytes, ct) = finish_download("x/y.jpg", 200, Some(vec![1, 2, 3])).unwrap();
    assert_eq!(bytes, vec![1, 2, 3]);
    assert_eq!(ct, "image/jpeg");
}

#[test]
fn download_failure_is_a_miss() {
    assert!(finish_download("a.png", 404, Some(vec![9])).is_none());
    assert!(finish_download("a.png", 500, None).is_none());
    assert!(finish_download("a.png", 200, None).is_none());
}

#[test]
fn prefetch_counts_only_new_downloads() {
    assert!(matches!(lookup(true, "https://h", "a.png"), CacheStep::ServeLocal));
    let (count, stored) = prefetch_record(0, "b.png", 200, Some(vec![7, 8]));
    assert_eq!(count, 1);
    let (bytes, ct) = stored.unwrap();
    assert_eq!(bytes, vec![7, 8]);
    assert_eq!(ct, "image/png");
}

#[test]
fn prefetch_failures_are_not_counted() {
    let (count, stored) = prefetch_record(3, "c.png", 404, Some(vec![1]));
    assert_eq!(count, 3);
    assert!(stored.is_none());
    let (count, stored) = prefetch_record(3, "c.png", 200, None);
    assert_eq!(count, 3);
    assert!(stored.is_none());
}

#[test]
fn absent_asset_is_downloaded_again() {
    assert!(matches!(lookup(true, "https://h", "a.png"), CacheStep::ServeLocal));
    match lookup(false, "https://h", "a.png") {
        CacheStep::Download(u) => assert_eq!(u, "https://h/images/game/a.png"),
        other => panic!("unexpected {:?}", other),
    }
}
