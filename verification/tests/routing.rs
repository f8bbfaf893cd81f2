use thumbrella::cook::{cache_key_of, storage_key_of};
use thumbrella::dispatch::{
    bypass, format_manifest, route, set_tier3_available_extensions, tier3_can_handle,
    Tier3Registry, FORMAT_COUNT,
};
use thumbrella::fetch::{failure_message, origin_of, retry_after};
use thumbrella::fetch_guard::{OriginBackoffCache, UrlFailureCache};
use thumbrella::local_path::PathRule;
use thumbrella::inspect::mime_to_kind;
use thumbrella::media::{canonical_extension, ext_to_kind, ext_to_mime, mime_to_extension, FileKind};
use thumbrella::result::{ResultSource, ResultStatus, ThumbResult};
use thumbrella::routes::{
    client_ip, handshake_passes, health_log, is_private_host, kind_str, landing_values, log_result,
    normalize_url, placeholder_name, plan_batch, query_url, result_status_code, source_label,
    thumb_reply, wants_ndjson, BatchPlan, HealthLog, ThumbQuery, ThumbReply, BATCH_MAX_ITEMS,
};

fn s(t: &str) -> String {
    t.to_string()
}

#[test]
fn local_urls_need_leave() {
    assert_eq!(normalize_url(s("https://example.com/a.png"), false, PathRule::Posix), Ok(s("https://example.com/a.png")));
    assert_eq!(normalize_url(s("file:///a.png"), false, PathRule::Posix), Err("file:// URLs are not permitted"));
    assert_eq!(normalize_url(s("file:///a.png"), true, PathRule::Posix), Ok(s("file:///a.png")));
    for host in ["localhost", "LOCALHOST:8080", "127.0.0.1", "10.1.2.3", "172.16.0.1", "192.168.1.1", "[::1]"] {
        assert_eq!(
            normalize_url(format!("http://{host}/a.png"), false, PathRule::Posix),
            Err("localhost and private-network URLs are not permitted"),
            "{host}"
        );
        assert!(normalize_url(format!("http://{host}/a.png"), true, PathRule::Posix).is_ok());
    }
    for host in ["172.15.0.1", "172.32.0.1", "11.0.0.1", "192.169.1.1", "example.com"] {
        assert!(normalize_url(format!("http://{host}/a.png"), false, PathRule::Posix).is_ok(), "{host}");
    }
    assert_eq!(normalize_url(s("/a.png"), true, PathRule::Posix), Ok(s("file:///a.png")));
    assert!(normalize_url(s("a.png"), true, PathRule::Posix).is_err());
    assert!(normalize_url(s("C:/a.png"), true, PathRule::Posix).is_err());
    assert_eq!(normalize_url(s("C:\\a.png"), true, PathRule::Windows), Ok(s("file:///C:/a.png")));
    assert!(normalize_url(s("/a.png"), true, PathRule::Windows).is_err());
    assert!(normalize_url(s("C:/a.png"), false, PathRule::Windows).is_err());
    assert_eq!(normalize_url(s("/a.png"), false, PathRule::Posix), Err("url must be an http:// or https:// URL"));
}

#[test]
fn the_host_is_found_behind_user_and_port() {
    assert!(normalize_url(s("http://user:pw@10.0.0.1:99/x"), false, PathRule::Posix).is_err());
    assert!(normalize_url(s("http://10.0.0.1.example.com/x"), false, PathRule::Posix).is_ok());
    assert!(is_private_host(Some("127.8.9.1")));
    assert!(!is_private_host(None));
    assert!(!is_private_host(Some("8.8.8.8")));
}

#[test]
fn a_batch_beyond_the_limit_is_set_aside() {
    let urls: Vec<String> = (0..BATCH_MAX_ITEMS + 2).map(|i| format!("https://e.com/{i}")).collect();
    match plan_batch(urls, false, PathRule::Posix) {
        BatchPlan::Accepted { jobs, overflow } => {
            assert_eq!(jobs.len(), BATCH_MAX_ITEMS);
            assert_eq!(overflow, vec!["https://e.com/12", "https://e.com/13"]);
        }
        other => panic!("unexpected {other:?}"),
    }
    match plan_batch(vec![s("https://e.com/a"), s("nope"), s("file:///x")], false, PathRule::Posix) {
        BatchPlan::Refused { index, reason } => {
            assert_eq!(index, 1);
            assert_eq!(reason, "url must be an http:// or https:// URL");
        }
        other => panic!("unexpected {other:?}"),
    }
}

#[test]
fn overflowing_items_get_the_batch_limit_status() {
    let r = ThumbResult::batch_limit(s("https://e.com/13"));
    assert_eq!(r.status, ResultStatus::BatchLimit);
    assert_eq!(r.url, "https://e.com/13");
    assert!(r.media.is_none());
}

#[test]
fn keys_start_with_the_account() {
    let key = cache_key_of(&Some(s("acme")), "url:https://e.com/a.png");
    assert!(key.starts_with("acme/"), "{key}");
    assert_eq!(key.len(), "acme/".len() + 43);
    let anonymous = cache_key_of(&None, "url:https://e.com/a.png");
    assert!(anonymous.starts_with("_/"));
    assert_ne!(cache_key_of(&None, "a"), cache_key_of(&None, "b"));
    assert_eq!(cache_key_of(&None, "a"), cache_key_of(&None, "a"));
    assert_eq!(storage_key_of(&None, &[0xfb, 0xff]), "_/-_8");
}

#[test]
fn extensions_become_canonical_once() {
    for (raw, canonical) in [("jpg", "jpeg"), ("jpe", "jpeg"), ("htm", "html"), ("crw", "cr2"), ("png", "png")] {
        assert_eq!(canonical_extension(raw), canonical);
        assert_eq!(canonical_extension(canonical), canonical);
    }
}

#[test]
fn kinds_and_types_of_extensions() {
    assert_eq!(ext_to_kind("png"), FileKind::Image);
    assert_eq!(ext_to_kind("mp4"), FileKind::Video);
    assert_eq!(ext_to_kind("mp3"), FileKind::Audio);
    assert_eq!(ext_to_kind("svg"), FileKind::Vector);
    assert_eq!(ext_to_kind("no-such"), FileKind::Unknown);
    assert_eq!(ext_to_mime("png"), "image/png");
    assert_eq!(mime_to_extension("image/png"), "png");
    assert_eq!(mime_to_extension("image/jpeg"), "jpeg");
}

#[test]
fn the_tables_agree() {
    for mime in ["image/png", "image/jpg", "video/quicktime", "model/gltf-binary", "no/such"] {
        let ext = mime_to_extension(mime);
        assert_eq!(mime_to_extension(ext_to_mime(ext)), ext, "{mime}");
    }
    for ext in ["png", "mp4", "mp3", "svg", "obj", "pdf", "txt", "zip", "no-such"] {
        assert_eq!(mime_to_kind(ext_to_mime(ext), ext), ext_to_kind(ext), "{ext}");
    }
    assert_eq!(ext_to_kind("emf"), FileKind::Vector);
    assert_eq!(mime_to_kind(ext_to_mime("emf"), "emf"), FileKind::Image);
    let formats = format_manifest();
    let mut exts: Vec<&str> = formats.iter().map(|f| f.extension).collect();
    exts.sort();
    exts.dedup();
    assert!(exts.len() > 100);
    for f in &formats {
        assert_eq!(canonical_extension(f.extension), f.extension);
        assert!(f.tier != 1 || (f.kind == FileKind::Image && f.renderer == "image_crate"));
        assert!(f.kind != FileKind::Geometry || f.tier == 3);
    }
}

#[test]
fn every_format_routes_to_its_tier() {
    let formats = format_manifest();
    assert_eq!(formats.len(), FORMAT_COUNT);
    assert!(formats.len() > 100);
    for f in &formats {
        assert!((1..=3).contains(&f.tier), "{}", f.extension);
        let lowest = formats
            .iter()
            .filter(|e| e.kind == f.kind && e.extension == f.extension)
            .map(|e| e.tier)
            .min();
        assert_eq!(Some(route(f.kind, Some(f.extension)).tier), lowest, "{}", f.extension);
    }
    assert_eq!(route(FileKind::Image, Some("jpeg")).tier, 2);
    assert_eq!(route(FileKind::Geometry, None).tier, 3);
    assert_eq!(route(FileKind::Text, Some("zzz")).tier, 1);
    assert_eq!(bypass().tier, 2);
}

#[test]
fn the_third_tier_takes_what_was_registered() {
    let mut registry = Tier3Registry::new();
    assert!(tier3_can_handle(&registry, "blend"));
    set_tier3_available_extensions(&mut registry, vec![s("blend"), s("obj")]);
    assert!(tier3_can_handle(&registry, "obj"));
    assert!(!tier3_can_handle(&registry, "fbx"));
}

#[test]
fn origins_of_urls() {
    assert_eq!(origin_of("https://e.com:8080/a/b?c"), "https://e.com:8080");
    assert_eq!(origin_of("https://e.com"), "https://e.com");
    assert_eq!(origin_of("e.com/a"), "e.com");
    assert_eq!(origin_of("http://example.com?x=1"), "http://example.com");
    assert_eq!(origin_of("http://example.com#x"), "http://example.com");
    assert_eq!(origin_of("http://example.com?next=/a"), "http://example.com");
    assert_eq!(retry_after(Some(" 120 "), 30), 120);
    assert_eq!(retry_after(Some("Wed, 21 Oct"), 30), 30);
    assert_eq!(retry_after(None, 30), 30);
    assert!(failure_message(404).is_some());
    assert_eq!(failure_message(200), None);
}

#[test]
fn a_failed_url_is_refused_for_a_while() {
    let mut cache = UrlFailureCache::new(60);
    assert_eq!(cache.check("u", 0), None);
    cache.record(s("u"), 404, s("gone"), 1000);
    assert_eq!(cache.check("u", 1059), Some((404, "gone")));
    assert_eq!(cache.check("u", 1060), None);
    assert_eq!(cache.check("v", 1000), None);
    cache.record(s("u"), 500, s("again"), 2000);
    assert_eq!(cache.check("u", 2000), Some((500, "again")));
}

#[test]
fn a_back_off_never_outlasts_the_ceiling() {
    let mut cache = OriginBackoffCache::new(300);
    cache.record(s("https://e.com"), 429, u64::MAX, 1000);
    assert_eq!(cache.check("https://e.com", 1299), Some(429));
    assert_eq!(cache.check("https://e.com", 1300), None);
    cache.record(s("https://f.com"), 503, 10, 1000);
    assert_eq!(cache.check("https://f.com", 1009), Some(503));
    assert_eq!(cache.check("https://f.com", 1010), None);
}

#[test]
fn request_headers_are_read() {
    assert_eq!(client_ip(Some("1.2.3.4, 5.6.7.8"), Some("9.9.9.9")), Some(s("1.2.3.4")));
    assert_eq!(client_ip(None, Some("9.9.9.9")), Some(s("9.9.9.9")));
    assert_eq!(client_ip(None, None), None);
    assert!(wants_ndjson(Some("application/x-ndjson")));
    assert!(!wants_ndjson(Some("application/json")));
    assert!(!wants_ndjson(None));
    assert!(handshake_passes(None, None));
    assert!(handshake_passes(Some("k"), Some("k")));
    assert!(!handshake_passes(Some("k"), Some("x")));
    assert!(!handshake_passes(Some("k"), None));
    assert_eq!(query_url(ThumbQuery { url: Some(s("https://e.com")) }), Some(s("https://e.com")));
    assert_eq!(query_url(ThumbQuery { url: None }), None);
    assert_eq!(placeholder_name("image.jpeg"), Some(s("image")));
    assert_eq!(placeholder_name("image.jpg"), None);
    assert_eq!(landing_values(false).1, "TBR_CONNECT=http://localhost:3114");
    assert_eq!(landing_values(true).0, "has-handshake");
    assert_eq!(health_log(true, 0, false), HealthLog::Request);
}

fn failed() -> ThumbResult {
    ThumbResult {
        url: s("https://e.com/a"),
        status: ResultStatus::Failed,
        message: Some(s("no luck")),
        source: Some(ResultSource::Placeholder),
        download_size: 0,
        http_status: Some(404),
        media: None,
    }
}

#[test]
fn a_failed_result_is_logged_and_answered() {
    assert_eq!(kind_str(FileKind::Image), "image");
    assert_eq!(source_label(&ResultSource::Cache), "cache");
    let r = failed();
    let log = log_result(&r, 12);
    assert_eq!(log.url, "https://e.com/a");
    assert_eq!(log.duration_ms, 12);
    assert_eq!(log.message.as_deref(), Some("no luck"));
    assert_eq!(log.status, result_status_code(&r));
    match thumb_reply(r) {
        ThumbReply::Failure(m) => assert_eq!(m, "no luck"),
        other => panic!("unexpected {other:?}"),
    }
}
