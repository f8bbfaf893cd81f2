use thumbrella::cook::{
    cook_status_from_job, kind_slug, CacheFind, CacheHints, CookStatus, HandoffResponse,
    InputSpec, MediaInfo, NextStep, PlaceholderIcons, ResolveStep, SourceIdentity, ThumbCook,
    ThumbHandoff,
};
use thumbrella::dispatch::{set_tier3_available_extensions, Tier3Registry};
use thumbrella::fetch::{ConnectAction, ResponseHead};
use thumbrella::handoff::{handoff_endpoint, inflight_key, HandoffInflight, HANDSHAKE_HEADER};
use thumbrella::media::FileKind;
use thumbrella::inspect::{inspect, Inspection};
use thumbrella::pipeline::handoff_tiers;
use thumbrella::raster::ImageProps;
use thumbrella::shortcut::steps::Attempt;
use thumbrella::renderer::{apply_render_output, peek_bytes, RenderOutput};
use thumbrella::result::{
    RenderHandler, ResultSource, ResultStatus, ThumbMedia, ThumbResult, ThumbTrace,
};
use thumbrella::text_map::TextMap;

fn s(t: &str) -> String {
    t.to_string()
}

fn icons() -> PlaceholderIcons {
    PlaceholderIcons {
        image: vec![1],
        video: vec![2],
        audio: vec![3],
        vector: vec![4],
        document: vec![5],
        geometry: vec![6],
        archive: vec![7],
        text: vec![8],
        binary: vec![9],
        unknown: vec![10],
        failed: vec![11],
    }
}

fn media(thumbnail: Vec<u8>) -> ThumbMedia {
    ThumbMedia {
        file_size: 99,
        kind: FileKind::Image,
        extension: s("png"),
        mime: s("image/png"),
        cache: s(""),
        placeholder: s(""),
        properties: TextMap::new(),
        thumbnail,
        url: s("https://e.com/a.png"),
    }
}

fn result(thumbnail: Vec<u8>) -> ThumbResult {
    ThumbResult {
        url: s("https://e.com/a.png"),
        status: ResultStatus::Success,
        message: None,
        source: Some(ResultSource::Render),
        download_size: 1234,
        http_status: Some(200),
        media: Some(media(thumbnail)),
    }
}

fn find(expires_at: Option<u64>) -> CacheFind {
    CacheFind {
        result: result(vec![42]),
        hints: Some(CacheHints { expires_at, etag: Some(s("e1")), last_modified: None }),
        backend: s("memory"),
    }
}

#[test]
fn a_callers_fresh_copy_ends_the_cook() {
    let mut cook = ThumbCook::from_input(InputSpec {
        url: s("https://e.com/a.png"),
        cache: Some(CacheHints { expires_at: Some(100), etag: None, last_modified: None }),
        allow_local: false,
    });
    assert_eq!(cook.resolve_start(99), ResolveStep::Resolved);
    assert_eq!(cook.status, CookStatus::Fresh);
    let mut late = ThumbCook::from_input(InputSpec {
        url: s("https://e.com/a.png"),
        cache: Some(CacheHints { expires_at: Some(100), etag: None, last_modified: None }),
        allow_local: false,
    });
    assert_eq!(late.resolve_start(101), ResolveStep::Connect);
    assert_eq!(late.status, CookStatus::Processing);
}

#[test]
fn a_fresh_cached_result_is_served() {
    let mut cook = ThumbCook::new(s("https://e.com/a.png"));
    assert_eq!(cook.run_start(), NextStep::ResolveCache);
    assert_eq!(cook.resolve_start(10), ResolveStep::LookupBefore);
    assert_eq!(cook.on_lookup_before(Some(find(Some(1000))), 10), ResolveStep::Resolved);
    assert_eq!(cook.status, CookStatus::Complete);
    assert_eq!(cook.out_thumbnail, vec![42]);
    assert_eq!(cook.out_download_bytes, 1234);
    assert_eq!(cook.cache_hit.as_deref(), Some("memory"));
    assert_eq!(cook.after_cache(true), NextStep::Finish);
}

#[test]
fn a_stale_result_comes_back_on_not_modified() {
    let mut cook = ThumbCook::new(s("https://e.com/a.png"));
    cook.resolve_start(10);
    assert_eq!(cook.on_lookup_before(Some(find(Some(5))), 10), ResolveStep::Connect);
    assert!(cook.input.cache.is_none());
    assert_eq!(cook.conditional_header(), Some((s("If-None-Match"), s("e1"))));
    assert!(cook.connect_start(None, None));
    let action = cook.on_response(
        ResponseHead {
            status: 304,
            accepts_ranges: false,
            content_length: None,
            headers: TextMap::new(),
            url: s("https://e.com/a.png"),
            canonical_url: None,
            hints: None,
        },
        30,
    );
    assert!(matches!(action, ConnectAction::NotModified));
    assert_eq!(cook.status, CookStatus::Fresh);
    assert_eq!(cook.on_connected(&None), ResolveStep::Resolved);
    assert_eq!(cook.out_thumbnail, vec![42]);
    assert!(cook.stale.is_none());
}

#[test]
fn responses_decide_what_is_recorded() {
    let head = |status: u16| {
        let mut headers = TextMap::new();
        headers.insert(s("retry-after"), s("77"));
        ResponseHead {
            status,
            accepts_ranges: true,
            content_length: Some(5),
            headers,
            url: s("https://e.com/b.png"),
            canonical_url: None,
            hints: None,
        }
    };
    let mut busy = ThumbCook::new(s("https://e.com/a.png"));
    match busy.on_response(head(429), 30) {
        ConnectAction::RecordBackoff { status, ttl_secs } => assert_eq!((status, ttl_secs), (429, 77)),
        other => panic!("unexpected {other:?}"),
    }
    assert_eq!(busy.status, CookStatus::Overloaded);
    let mut gone = ThumbCook::new(s("https://e.com/a.png"));
    match gone.on_response(head(404), 30) {
        ConnectAction::RecordFailure { status, message } => {
            assert_eq!(status, 404);
            assert_eq!(message, gone.out_message);
        }
        other => panic!("unexpected {other:?}"),
    }
    assert_eq!(gone.status, CookStatus::Failed);
    let mut fine = ThumbCook::new(s("https://e.com/a.png"));
    assert!(matches!(fine.on_response(head(200), 30), ConnectAction::Install));
    assert_eq!(fine.status, CookStatus::Processing);
    assert_eq!(fine.media.file_size, Some(5));
    assert!(fine.http_accepts_ranges);
    let mut known = ThumbCook::new(s("https://e.com/a.png"));
    assert!(!known.connect_start(None, Some((404, s("gone")))));
    assert_eq!(known.status, CookStatus::Failed);
    let mut resting = ThumbCook::new(s("https://e.com/a.png"));
    assert!(!resting.connect_start(Some(503), None));
    assert_eq!(resting.status, CookStatus::Overloaded);
}

#[test]
fn an_undecoded_source_goes_up_the_tiers() {
    let mut cook = ThumbCook::new(s("https://e.com/a.mp4"));
    assert_eq!(cook.after_inspect(), NextStep::Shortcut);
    assert_eq!(cook.after_shortcut(true, 0), NextStep::Render);
    assert_eq!(cook.after_shortcut(false, 0), NextStep::Handoff);
    cook.has_image = true;
    assert_eq!(cook.after_shortcut(true, 0), NextStep::Deliver);
}

#[test]
fn an_account_over_its_quota_gets_no_render() {
    let mut cook = ThumbCook::new(s("https://e.com/a.mp4"));
    cook.render_disabled = true;
    cook.render_disabled_ttl_secs = Some(60);
    assert_eq!(cook.after_shortcut(true, 1000), NextStep::Finish);
    assert_eq!(cook.out_message, "render quota reached");
    assert!(cook.src.cache_hints.is_none());
    let mut done = ThumbCook::new(s("https://e.com/a.mp4"));
    done.status = CookStatus::Complete;
    done.src.cache_key = Some(s("k"));
    done.render_disabled = true;
    done.render_disabled_ttl_secs = Some(60);
    assert_eq!(done.after_shortcut(true, 1000), NextStep::Finish);
    assert_eq!(done.src.cache_hints.as_ref().unwrap().expires_at, Some(1060));
}

#[test]
fn every_finished_cook_has_a_thumbnail() {
    for kind in [
        FileKind::Image, FileKind::Video, FileKind::Audio, FileKind::Vector, FileKind::Document,
        FileKind::Geometry, FileKind::Archive, FileKind::Text, FileKind::Binary, FileKind::Unknown,
    ] {
        let mut cook = ThumbCook::new(s("https://e.com/a"));
        cook.media.kind = Some(kind);
        cook.finish(&icons(), 1000);
        assert_eq!(cook.out_thumbnail, icons().for_kind(kind).to_vec(), "{kind:?}");
        assert_eq!(cook.out_placeholder.as_deref(), Some(kind_slug(kind)));
    }
    let mut cook = ThumbCook::new(s("https://e.com/a"));
    cook.fail(s("no route"));
    cook.finish(&icons(), 1000);
    assert!(!cook.out_thumbnail.is_empty());
    let again = cook.out_thumbnail.clone();
    cook.finish(&icons(), 2000);
    assert_eq!(cook.out_thumbnail, again);
    assert_eq!(icons().by_name("video"), [2]);
    assert_eq!(icons().by_name("failed"), [11]);
}

#[test]
fn an_expiry_never_passes_the_maximum() {
    let mut cook = ThumbCook::new(s("https://e.com/a"));
    assert_eq!(cook.cache_expires_at(1000, 60, 600), 1060);
    cook.src.cache_hints =
        Some(CacheHints { expires_at: Some(1_000_000), etag: None, last_modified: None });
    assert_eq!(cook.cache_expires_at(1000, 60, 600), 1600);
    cook.src.cache_hints = Some(CacheHints { expires_at: Some(1030), etag: None, last_modified: None });
    assert_eq!(cook.cache_expires_at(1000, 60, 600), 1030);
    cook.render_disabled_ttl_secs = Some(5);
    assert_eq!(cook.store_until(true, 1000, 60, 600), None);
    cook.status = CookStatus::Complete;
    cook.src.cache_key = Some(s("k"));
    assert_eq!(cook.store_until(true, 1000, 60, 600), Some(1005));
    assert_eq!(cook.store_until(false, 1000, 60, 600), Some(1030));
}

fn handoff() -> ThumbHandoff {
    ThumbHandoff {
        input: InputSpec::new(s("https://e.com/a.mp4")),
        media: MediaInfo {
            mime: Some(s("video/mp4")),
            kind: Some(FileKind::Video),
            extension: Some(s("mp4")),
            properties: None,
            file_size: Some(7),
        },
        src: SourceIdentity {
            final_url: None,
            canonical_url: None,
            cache_hints: None,
            cache_key: None,
            cache_key_source: None,
        },
        first_page: None,
    }
}

#[test]
fn a_handed_off_cook_skips_cache_and_inspection() {
    let mut cook = ThumbCook::from_handoff(handoff());
    assert!(cook.ctx_handoff);
    assert_eq!(cook.media.kind, Some(FileKind::Video));
    assert_eq!(cook.resolve_start(10), ResolveStep::Connect);
    assert_eq!(cook.run_start(), NextStep::Shortcut);
    cook.has_image = true;
    assert_eq!(cook.after_render(true), NextStep::Deliver);
    assert_eq!(cook.render_handler, RenderHandler::Handoff);
    assert_eq!(cook.out_download_bytes, 7);
}

fn trace() -> ThumbTrace {
    ThumbTrace {
        status: ResultStatus::Success,
        source: Some(ResultSource::Render),
        kind: Some(FileKind::Video),
        extension: Some(s("mp4")),
        canonical_url: None,
        cache_key: None,
        cache_key_source: None,
        source_etag: None,
        download_bytes: 5,
        download_tail_bytes: 6,
        thumbnail_bytes: Some(1),
        job_tier: 2,
        job_renderer: Some(s("libav")),
        message: None,
        session_id: None,
        customer_id: None,
        cache_hit: None,
        render_handler: RenderHandler::Builtin,
        cancelled: false,
        server: None,
        version: s("9.9"),
    }
}

#[test]
fn a_higher_tiers_answer_is_taken_over() {
    let mut cook = ThumbCook::new(s("https://e.com/a.mp4"));
    let done = cook.on_handoff(Ok(HandoffResponse { result: result(vec![77]), trace: trace() }), 2, 100);
    assert!(done);
    assert_eq!(cook.status, CookStatus::Complete);
    assert_eq!(cook.out_thumbnail, vec![77]);
    assert_eq!(cook.out_download_bytes, 1334);
    assert_eq!(cook.render_renderer.as_deref(), Some("handoff/tier2"));
    assert_eq!(cook.tel_job_tier_override, Some(2));
    assert_eq!(cook.tel_version_override.as_deref(), Some("9.9"));
    let mut refused = ThumbCook::new(s("https://e.com/a.mp4"));
    assert!(!refused.on_handoff(Err(s("timeout")), 2, 0));
    refused.handoff_exhausted(true);
    assert_eq!(refused.status, CookStatus::Failed);
    let mut alone = ThumbCook::new(s("https://e.com/a.mp4"));
    alone.handoff_exhausted(false);
    assert_eq!(alone.out_message, "no higher-tier renderer is configured");
    assert_eq!(alone.source(), ResultSource::Placeholder);
}

#[test]
fn tiers_are_asked_in_order() {
    let all = Tier3Registry::new();
    assert_eq!(handoff_tiers(Some(FileKind::Video), "mp4", true, true, &all), vec![2, 3]);
    assert_eq!(handoff_tiers(Some(FileKind::Geometry), "obj", true, true, &all), vec![3]);
    assert_eq!(handoff_tiers(Some(FileKind::Geometry), "obj", true, false, &all), Vec::<u8>::new());
    let mut some = Tier3Registry::new();
    set_tier3_available_extensions(&mut some, vec![s("blend")]);
    assert_eq!(handoff_tiers(Some(FileKind::Geometry), "obj", true, true, &some), Vec::<u8>::new());
}

#[test]
fn endpoints_and_keys_of_handoffs() {
    assert_eq!(handoff_endpoint("https://t2.example.com/"), handoff_endpoint("https://t2.example.com"));
    assert_eq!(HANDSHAKE_HEADER, "x-tbr-handshake");
    let a = ThumbCook::new(s("https://e.com/a"));
    let b = ThumbCook::new(s("https://e.com/b"));
    assert_ne!(inflight_key(&a), inflight_key(&b));
    let mut flights = HandoffInflight::new();
    assert_eq!(flights.try_lead("k", 1), Some(1));
    assert_eq!(flights.try_lead("k", 2), None);
    assert_eq!(flights.complete("k"), vec![2]);
    assert_eq!(flights.try_lead("k", 3), Some(3));
}

#[test]
fn results_name_their_source() {
    let mut cook = ThumbCook::new(s("https://e.com/a.png"));
    cook.media.kind = Some(FileKind::Image);
    cook.out_thumbnail = vec![5];
    cook.status = CookStatus::Complete;
    cook.render_renderer = Some(s("image"));
    let r = cook.to_result("tok");
    assert_eq!(r.status, ResultStatus::Success);
    assert_eq!(r.url, "https://e.com/a.png");
    assert_eq!(r.media.unwrap().thumbnail, vec![5]);
    let t = cook.to_trace(true, &Some(s("srv")), "1.0");
    assert_eq!(t.job_renderer.as_deref(), Some("image"));
    assert_eq!(t.server.as_deref(), Some("srv"));
    assert_eq!(t.version, "1.0");
    let p = ThumbCook::new(s("https://e.com/a.png")).to_progress_result(&icons(), "tok");
    assert_eq!(p.status, ResultStatus::Intermediate);
    assert_eq!(cook_status_from_job(ResultStatus::Overloaded), CookStatus::Overloaded);
}

#[test]
fn renderers_report_and_cancel() {
    let mut cook = ThumbCook::new(s("https://e.com/a.png"));
    let mut props = TextMap::new();
    props.insert(s("width"), s("3"));
    apply_render_output(&mut cook, RenderOutput { renderer: Some(s("jxl")), properties: Some(props) });
    assert_eq!(cook.render_renderer.as_deref(), Some("jxl"));
    assert_eq!(cook.media.properties.as_ref().unwrap().get("width"), Some("3"));
    cook.set_bytes_consumed(12);
    assert_eq!(cook.render_bytes_consumed, Some(12));
    assert!(!cook.cancelled());
    cook.request_cancel();
    assert!(cook.cancelled());
    assert_eq!(peek_bytes(Some(&[1, 2, 3]), 2), Some(vec![1, 2]));
    assert_eq!(peek_bytes(None, 2), None);
}

#[test]
fn hints_are_fresh_until_they_expire() {
    let h = CacheHints::expiring_in(100, 50);
    assert_eq!(h.expires_at, Some(150));
    assert!(h.is_fresh(149));
    assert!(!h.is_fresh(151));
    let floor = h.with_min_expiry(200, 30);
    assert_eq!(floor.expires_at, Some(230));
    assert_eq!(floor.expires_at, Some(230));
}

#[test]
fn an_inspection_is_taken_over() {
    let mut cook = ThumbCook::new(s("https://e.com/a.flac"));
    cook.media.file_size = Some(9);
    cook.apply_inspection(inspect(b"fLaC\0\0\0\x22", "https://e.com/a.flac", None));
    assert_eq!(cook.media.kind, Some(FileKind::Audio));
    assert_eq!(cook.media.file_size, Some(9));
    assert_eq!(cook.media.properties.as_ref().unwrap().get("lossless"), Some("true"));
    let mut image = ThumbCook::new(s("https://e.com/a.png"));
    image.apply_inspection(Inspection {
        kind: FileKind::Image,
        mime: s("image/png"),
        extension: s("png"),
        image: Some(ImageProps { width: 3, height: 4, bpp: None, alpha: None, lossless: None }),
        audio_lossless: None,
    });
    assert_eq!(image.media.properties.as_ref().unwrap().get("height"), Some("4"));
    assert_eq!(image.media.properties.as_ref().unwrap().get("bpp"), None);
}

#[test]
fn a_shortcut_closes_the_connection() {
    let mut cook = ThumbCook::new(s("https://e.com/a.jpg"));
    cook.http_open = true;
    cook.http_fetched = 4096;
    let props = ImageProps { width: 640, height: 480, bpp: Some(24), alpha: Some(false), lossless: None };
    cook.apply_shortcut(Attempt::Exif, Some(props), false, 0);
    assert!(!cook.http_open);
    assert_eq!(cook.out_download_bytes, 4096);
    assert_eq!(cook.render_renderer.as_deref(), Some("shortcut/exif"));
    assert_eq!(cook.source(), ResultSource::Shortcut);
    assert_eq!(cook.after_shortcut(false, 0), NextStep::Deliver);
    cook.apply_delivery(Some(vec![1, 2, 3]));
    assert_eq!(cook.status, CookStatus::Complete);
    assert_eq!(cook.tel_thumbnail_bytes, Some(3));
    cook.finish(&icons(), 5);
    assert_eq!(cook.out_thumbnail, vec![1, 2, 3]);
    assert_eq!(cook.out_placeholder, None);
}

#[test]
fn a_failed_encoding_leaves_the_cook_running() {
    let mut cook = ThumbCook::new(s("https://e.com/a.mp3"));
    cook.has_image = true;
    cook.apply_delivery(None);
    assert!(!cook.has_image);
    assert_eq!(cook.status, CookStatus::Processing);
    cook.apply_audio(2, Some(s("1.5")));
    let props = cook.media.properties.as_ref().unwrap();
    assert_eq!(props.get("channels"), Some("2"));
    assert_eq!(props.get("duration"), Some("1.5"));
    cook.apply_audio(0, None);
    assert_eq!(cook.media.properties.as_ref().unwrap().get("channels"), None);
}
