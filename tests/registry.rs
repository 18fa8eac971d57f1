use noisebell::registry::{Storage, WebhookError, WebhookRequest};

#[test]
fn duplicate_url_is_refused_and_size_unchanged() {
    let mut storage = Storage::new();
    assert!(storage.add_webhook("https://example.com/hook").is_ok());
    assert_eq!(storage.len(), 1);
    let again = storage.add_webhook("https://example.com/hook");
    assert!(matches!(again, Err(WebhookError::DuplicateUrl)));
    assert_eq!(storage.len(), 1);
}

#[test]
fn malformed_url_is_refused() {
    let mut storage = Storage::new();
    let r = storage.add_webhook("not-a-url");
    assert!(matches!(r, Err(WebhookError::InvalidUrl)));
    assert_eq!(storage.len(), 0);
}

#[test]
fn added_endpoint_keeps_its_url() {
    let mut storage = Storage::new();
    let w = storage.add_webhook("http://10.0.0.2:8080/notify").ok().unwrap();
    assert_eq!(w.url, "http://10.0.0.2:8080/notify");
    assert!(w.created_at > 1_600_000_000);
    assert!(storage.contains("http://10.0.0.2:8080/notify"));
}

#[test]
fn register_checks_duplicates_before_validity() {
    let mut storage = Storage::new();
    assert!(storage.register(&WebhookRequest::with_url("https://a.example/"), true, 7).is_ok());
    assert!(matches!(storage.register(&WebhookRequest::with_url("https://a.example/"), false, 8), Err(WebhookError::DuplicateUrl)));
    assert!(matches!(storage.register(&WebhookRequest::with_url("https://a.example/"), true, 8), Err(WebhookError::DuplicateUrl)));
    assert!(matches!(storage.register(&WebhookRequest::with_url("https://b.example/"), false, 8), Err(WebhookError::InvalidUrl)));
    let list = storage.get_webhooks();
    assert_eq!(list.len(), 1);
    assert_eq!(list[0].created_at, 7);
}

#[test]
fn present_url_is_duplicate_even_if_malformed() {
    let mut storage = Storage::new();
    assert!(storage.register(&WebhookRequest::with_url("not-a-url"), true, 1).is_ok());
    assert!(matches!(storage.add_webhook("not-a-url"), Err(WebhookError::DuplicateUrl)));
    assert_eq!(storage.len(), 1);
}

#[test]
fn listing_keeps_insertion_order() {
    let mut storage = Storage::new();
    for (i, u) in ["https://c.example/", "https://a.example/", "https://b.example/"].iter().enumerate() {
        assert!(storage.register(&WebhookRequest::with_url(u), true, i as i64).is_ok());
    }
    let urls: Vec<String> = storage.get_webhooks().into_iter().map(|w| w.url).collect();
    assert_eq!(urls, vec!["https://c.example/", "https://a.example/", "https://b.example/"]);
}

#[test]
fn delete_removes_match_only() {
    let mut storage = Storage::new();
    assert!(storage.register(&WebhookRequest::with_url("https://a.example/"), true, 1).is_ok());
    assert!(storage.register(&WebhookRequest::with_url("https://b.example/"), true, 2).is_ok());
    storage.delete_webhook("https://a.example/");
    let urls: Vec<String> = storage.get_webhooks().into_iter().map(|w| w.url).collect();
    assert_eq!(urls, vec!["https://b.example/"]);
    storage.delete_webhook("https://missing.example/");
    assert_eq!(storage.len(), 1);
    assert!(storage.register(&WebhookRequest::with_url("https://a.example/"), true, 3).is_ok());
}

#[test]
fn request_overrides_are_kept() {
    let mut storage = Storage::new();
    let request = WebhookRequest {
        url: "https://d.example/hook".to_string(),
        label: Some("door".to_string()),
        timeout_secs: Some(4),
        retry_attempts: Some(2),
    };
    let w = storage.add_endpoint(&request).ok().unwrap();
    assert_eq!(w.label, Some("door".to_string()));
    assert_eq!(w.timeout_secs, Some(4));
    assert_eq!(w.retry_attempts, Some(2));
    let e = w.to_endpoint();
    assert_eq!(e.url, "https://d.example/hook");
    assert_eq!(e.name, Some("door".to_string()));
    assert_eq!(e.timeout_secs, Some(4));
    assert_eq!(e.retry_attempts, Some(2));
    assert!(matches!(storage.add_endpoint(&request), Err(WebhookError::DuplicateUrl)));
    let bad = WebhookRequest::with_url("/relative/path");
    assert!(matches!(storage.add_endpoint(&bad), Err(WebhookError::InvalidUrl)));
    assert_eq!(storage.len(), 1);
}
