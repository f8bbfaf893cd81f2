use thumbrella::address::{canonical_url, host_of};
use thumbrella::checks::{
    confirmed, health_endpoint, judge_handoff_target, judge_health, judge_schema, target_address,
    TargetProbe,
};
use thumbrella::cli::{
    abridged_thumbnail, is_local_input, promote_url, thumb_failure,
};
use thumbrella::config::{
    default_scratch_dir, env_bool, env_opt_u32, env_u16, AppConfig, EnvVars, Expected, Variable,
};
use thumbrella::connect::{looks_like_auth_token, parse_connect_target, ConnectTarget};
use thumbrella::diag::{
    apply_checks, check_handshake, collect, collect_sections, detect_container_image,
    fmt_diag_bytes, has_builtin_renderer, mark_tier2_builtin, mark_tier3_builtin,
    register_section, startup_issues, ContainerClues, DiagEntry, DiagProbes, DiagRegistry,
    DiagSection, TierStatus, Validation, ValidationStatus,
};
use thumbrella::cook::CacheHints;
use thumbrella::dispatch::Tier3Registry;
use thumbrella::fetch::max_age;
use thumbrella::formats::{
    format_enabled, format_lines, group_end, supported_formats, tier_available,
};
use thumbrella::pretty::pad_to;
use thumbrella::local_path::PathRule;
use thumbrella::media::FileKind;
use thumbrella::result::{ResultStatus, ThumbMedia, ThumbResult};
use thumbrella::text_map::TextMap;

fn s(t: &str) -> String {
    t.to_string()
}

fn unset() -> EnvVars {
    EnvVars {
        port: None,
        server: None,
        allow_local: None,
        scratch: None,
        tier2: None,
        tier3: None,
        handshake: None,
        cache: None,
        cache_max_ttl: None,
        cache_default_ttl: None,
        trace: None,
        tmpdir: None,
        tmp: None,
        temp: None,
    }
}

#[test]
fn an_empty_environment_gives_the_defaults() {
    let cfg = AppConfig::from_env(unset()).unwrap();
    assert_eq!(cfg.port, 3114);
    assert!(!cfg.allow_local);
    assert_eq!(cfg.scratch_dir, "/tmp/thumbrella");
    assert!(cfg.tier2.url.is_none());
    let same = AppConfig::defaults(s("/tmp/thumbrella"));
    assert_eq!(same.port, cfg.port);
    assert_eq!(same.cache_max_ttl_secs, cfg.cache_max_ttl_secs);
    assert_eq!(same.cache_default_ttl_secs, cfg.cache_default_ttl_secs);
    assert_eq!(default_scratch_dir(Some(s("/var/tmp/")), None, None), "/var/tmp/thumbrella");
}

#[test]
fn variables_are_read() {
    let mut vars = unset();
    vars.port = Some(s(" 8080 "));
    vars.allow_local = Some(s("yes"));
    vars.tier2 = Some(s("https://t2.example.com/,tok"));
    vars.cache_max_ttl = Some(s("60"));
    vars.server = Some(s("  "));
    let cfg = AppConfig::from_env(vars).unwrap();
    assert_eq!(cfg.port, 8080);
    assert!(cfg.allow_local);
    assert_eq!(cfg.tier2.url.as_deref(), Some("https://t2.example.com"));
    assert_eq!(cfg.tier2.headers.get("x-tbr-handshake"), Some("tok"));
    assert_eq!(cfg.cache_max_ttl_secs, 60);
    assert_eq!(cfg.server, None);
}

#[test]
fn bad_variables_are_refused_with_their_value() {
    let e = env_u16(Some(s("65536"))).unwrap_err();
    assert_eq!((e.variable, e.expected), (Variable::Port, Expected::Port));
    assert_eq!(e.message(), "TBR_PORT is set to \"65536\", which is not a valid port number");
    let e = env_bool(Some(s("maybe"))).unwrap_err();
    assert_eq!(e.message(), "TBR_ALLOW_LOCAL is set to \"maybe\", which is not a valid boolean");
    let e = env_opt_u32(Some(s("x")), Variable::CacheMaxTtl, 5).unwrap_err();
    assert_eq!(e.message(), "TBR_CACHE_MAX_TTL is set to \"x\", which is not a valid number");
    assert_eq!(env_opt_u32(None, Variable::CacheMaxTtl, 5).unwrap(), 5);
    assert_eq!(env_bool(Some(s("0"))).unwrap(), false);
    let mut vars = unset();
    vars.cache_default_ttl = Some(s("-1"));
    assert_eq!(AppConfig::from_env(vars).unwrap_err().variable, Variable::CacheDefaultTtl);
}

#[test]
fn connect_strings_carry_headers() {
    let t = parse_connect_target(Some(s("https://h.example.com/#secret, k = v ,tbr_a_123")));
    assert_eq!(t.url.as_deref(), Some("https://h.example.com"));
    assert_eq!(t.headers.get("x-tbr-handshake"), Some("secret"));
    assert_eq!(t.headers.get("k"), Some("v"));
    assert_eq!(t.headers.get("Authorization"), Some("Bearer tbr_a_123"));
    let bare = parse_connect_target(Some(s("tbr_x_9")));
    assert!(bare.url.is_none());
    assert_eq!(bare.headers.get("Authorization"), Some("Bearer tbr_x_9"));
    assert!(parse_connect_target(None).url.is_none());
    assert!(ConnectTarget::none().headers.pairs.is_empty());
    assert!(looks_like_auth_token("tbr_a_"));
    assert!(!looks_like_auth_token("tbr_A_"));
}

fn probes() -> DiagProbes {
    DiagProbes {
        version: s("1.0"),
        build_timestamp: None,
        port_available: true,
        tier2_target: Validation::error(s("down")),
        tier3_target: Validation::ok(),
        trace: Validation::ok(),
        trace_file_check: None,
        cache_file_check: None,
        container_image: Some(s("img")),
    }
}

#[test]
fn a_report_follows_the_configuration() {
    let mut vars = unset();
    vars.tier2 = Some(s("https://t2.example.com"));
    vars.cache = Some(s("mem:20"));
    let cfg = AppConfig::from_env(vars).unwrap();
    let mut registry = DiagRegistry::new();
    let sick = collect(&cfg, probes(), &registry);
    assert_eq!(sick.tier2, TierStatus::Handoff);
    assert_eq!(sick.tier3, TierStatus::Missing);
    assert!(!sick.healthy);
    assert_eq!(startup_issues(&sick), vec!["tier 2 validation failed"]);
    assert!(sick.print_pretty().len() > 3);
    let mended = apply_checks(sick, None, Some(Validation::ok()), None);
    assert!(mended.healthy);
    assert!(!has_builtin_renderer(&registry));
    mark_tier2_builtin(&mut registry);
    mark_tier3_builtin(&mut registry);
    assert!(has_builtin_renderer(&registry));
    let well = collect(&cfg, probes(), &registry);
    assert_eq!(well.tier2, TierStatus::Builtin);
    assert!(well.healthy);
}

#[test]
fn sections_come_back_in_order() {
    let mut registry = DiagRegistry::new();
    for h in ["one", "two"] {
        register_section(
            &mut registry,
            DiagSection {
                heading: s(h),
                entries: vec![DiagEntry { label: s("l"), status: s("ok"), detail: None }],
            },
        );
    }
    let all = collect_sections(&registry);
    assert_eq!(all.len(), 2);
    assert_eq!(all[1].heading, "two");
    assert_eq!(all[0].entries[0].label, "l");
}

#[test]
fn sizes_are_worded_as_floats_would_be() {
    for b in [0u64, 1, 1023, 1024, 1075, 1076, 1126, 1_048_575, 1_048_576, 5_767_168, 1 << 30, 3_758_096_384, 123_456_789_012] {
        let expected = if b >= 1 << 30 {
            format!("{:.1} GiB", b as f64 / (1u64 << 30) as f64)
        } else if b >= 1 << 20 {
            format!("{:.1} MiB", b as f64 / (1u64 << 20) as f64)
        } else if b >= 1 << 10 {
            format!("{:.1} KiB", b as f64 / 1024.0)
        } else {
            format!("{b} B")
        };
        assert_eq!(fmt_diag_bytes(b), expected, "{b}");
    }
}

#[test]
fn an_auth_token_is_no_handshake() {
    assert_eq!(check_handshake(&None).status, ValidationStatus::NotConfigured);
    assert_eq!(check_handshake(&Some(s("secret"))).status, ValidationStatus::Passed);
    assert_eq!(check_handshake(&Some(s("tbr_a_1"))).status, ValidationStatus::Error);
}

#[test]
fn containers_are_told_by_their_clues() {
    let clues = || ContainerClues {
        label: None,
        release: None,
        dockerenv: false,
        containerenv: false,
        cgroup: None,
        os_release: None,
    };
    assert_eq!(detect_container_image(&clues()), None);
    let mut labelled = clues();
    labelled.label = Some(s(" mine "));
    assert_eq!(detect_container_image(&labelled), Some(s("mine")));
    let mut docker = clues();
    docker.dockerenv = true;
    docker.os_release = Some(s("NAME=x\nIMAGE_ID=\"web\"\n"));
    assert_eq!(detect_container_image(&docker), Some(s("web")));
    let mut pod = clues();
    pod.cgroup = Some(s("12:x:/kubepods/y"));
    assert!(detect_container_image(&pod).is_some());
}

#[test]
fn checks_word_their_failures() {
    assert_eq!(health_endpoint("https://h/"), "https://h/health");
    let v = judge_handoff_target(false, TargetProbe::Reached);
    assert_eq!(v.status, ValidationStatus::Warn);
    assert_eq!(judge_handoff_target(true, TargetProbe::Reached).status, ValidationStatus::Passed);
    for (probe, message) in [
        (TargetProbe::BadUrl { error: s("e") }, "invalid handoff URL: e"),
        (TargetProbe::NoHost, "handoff URL has no host"),
        (TargetProbe::NoPort, "handoff URL has no usable port"),
        (TargetProbe::NoAddress, "handoff host resolved to no addresses"),
        (TargetProbe::DnsFailed { error: s("e") }, "handoff DNS resolve failed: e"),
        (
            TargetProbe::Unreachable { host: s("h"), port: 81, error: s("e") },
            "handoff target unreachable (h:81): e",
        ),
    ] {
        assert_eq!(judge_handoff_target(true, probe).message.as_deref(), Some(message));
    }
    assert_eq!(judge_health(Some(503), None).message.as_deref(), Some("health returned HTTP 503"));
    assert_eq!(judge_health(None, Some(false)).status, ValidationStatus::Error);
    assert_eq!(judge_health(None, None).status, ValidationStatus::Passed);
    let columns: Vec<String> = ["cache_key", "value", "size_bytes", "last_accessed_at", "access_count", "render_cost", "expires_at"]
        .iter()
        .map(|c| c.to_string())
        .collect();
    assert_eq!(judge_schema("ok", &columns).status, ValidationStatus::Passed);
    assert_eq!(judge_schema("bad page", &columns).message.as_deref(), Some("integrity_check: bad page"));
    assert_eq!(judge_schema("ok", &Vec::new()).status, ValidationStatus::Error);
    assert_eq!(
        judge_schema("ok", &columns[1..6].to_vec()).message.as_deref(),
        Some("schema mismatch \u{2014} missing column(s): cache_key, expires_at")
    );
}

#[test]
fn inputs_on_the_command_line() {
    assert!(is_local_input("./a.png"));
    assert!(!is_local_input("https://e.com/a.png"));
    assert_eq!(promote_url("https://e.com/a.png", "/work", PathRule::Posix), "https://e.com/a.png");
    assert_eq!(promote_url("/a.png", "/work", PathRule::Posix), "file:///a.png");
    assert_eq!(promote_url("./a.png", "/work", PathRule::Posix), "file:///work/./a.png");
    let windows = |raw: &str| promote_url(raw, "C:\\work", PathRule::Windows);
    assert_eq!(windows("D:\\a.png"), "file://D:\\a.png");
    assert_eq!(windows("a.png"), "file://C:\\work\\a.png");
    assert_eq!(windows("/a.png"), "file://C:/a.png");
    assert_eq!(windows("\\\\host\\share"), "file://\\\\host\\share");
    let formats = supported_formats();
    assert!(formats.iter().any(|f| f.extension == "png"));
    assert!(tier_available(1, false, false));
    assert!(tier_available(2, true, false));
    assert!(!tier_available(2, false, false));
    assert!(!tier_available(3, true, false));
    let registry = Tier3Registry::new();
    for f in &formats {
        assert!(format_enabled(f, true, true, &registry), "{}", f.extension);
    }
    let lines = format_lines(&formats, false, true, &registry);
    assert_eq!(lines[0], "Thumbrella - Supported Formats");
    assert!(lines[2].starts_with("  Image ("), "{}", lines[2]);
    assert!(lines.contains(&s("  Tier 2 is NOT configured - set TBR_TIER2 to enable.")));
    assert!(!lines.iter().any(|l| l.contains("TBR_TIER3")));
    let ready = formats.iter().filter(|f| f.tier != 2).count();
    assert!(lines.contains(&format!("  Summary:  {} defined, {} enabled", formats.len(), ready)));
    let png = formats.iter().find(|f| f.extension == "png").unwrap();
    assert!(lines.contains(&format!(
        "    {:<8}  {:<24}  tier {}{}{}",
        png.extension,
        png.label,
        png.tier,
        if png.tier == 2 { " (unavailable)" } else { "" },
        if png.shortcut { " [shortcut]" } else { "" },
    )));
    assert_eq!(pad_to("ab", 4), "ab  ");
    assert_eq!(pad_to("abcde", 4), "abcde");
    assert_eq!(abridged_thumbnail(0), None);
}

#[test]
fn a_result_without_picture_failed() {
    let r = ThumbResult {
        url: s("u"),
        status: ResultStatus::Failed,
        message: Some(s("why")),
        source: None,
        download_size: 0,
        http_status: None,
        media: None,
    };
    assert_eq!(thumb_failure(&r), Some(s("no result for u")));
    let with = |thumbnail: Vec<u8>, placeholder: &str| ThumbResult {
        url: s("u"),
        status: ResultStatus::Success,
        message: Some(s("why")),
        source: None,
        download_size: 0,
        http_status: None,
        media: Some(ThumbMedia {
            file_size: 0,
            kind: FileKind::Video,
            extension: s("mp4"),
            mime: s("video/mp4"),
            cache: s(""),
            placeholder: s(placeholder),
            properties: TextMap::new(),
            thumbnail,
            url: s("u"),
        }),
    };
    assert_eq!(thumb_failure(&with(vec![1], "")), None);
    assert_eq!(thumb_failure(&with(vec![1], "video")), Some(s("no thumbnail for u (placeholder: video)")));
    assert_eq!(thumb_failure(&with(vec![], "")), Some(s("no thumbnail for u (why)")));
}

#[test]
fn urls_are_taken_apart() {
    assert_eq!(canonical_url("https://E.com/a.png?x=1#top").as_deref(), Some("https://e.com/a.png"));
    assert_eq!(canonical_url("no url"), None);
    assert_eq!(host_of("http://user@e.com:81/x").as_deref(), Some("e.com"));
    assert_eq!(host_of("data:text/plain,x"), None);
    assert_eq!(target_address("https://e.com/x").unwrap(), (s("e.com"), 443));
    assert_eq!(target_address("http://e.com:3114").unwrap(), (s("e.com"), 3114));
    assert!(matches!(target_address("data:x"), Err(TargetProbe::NoHost)));
    assert!(matches!(target_address("foo://e.com"), Err(TargetProbe::NoPort)));
    match target_address("e.com") {
        Err(TargetProbe::BadUrl { error }) => assert_eq!(error, "relative URL without a base"),
        other => panic!("unexpected {other:?}"),
    }
}

#[test]
fn at_startup_only_a_passed_check_counts() {
    assert!(confirmed(None).is_none());
    assert!(confirmed(Some(Validation::error(s("down")))).is_none());
    assert_eq!(confirmed(Some(Validation::ok())).unwrap().status, ValidationStatus::Passed);
}

#[test]
fn response_headers_give_hints() {
    assert_eq!(max_age("public, Max-Age=60"), Some(60));
    assert_eq!(max_age("max-age=x, max-age= 7"), Some(7));
    assert_eq!(max_age("no-cache"), None);
    let mut headers = TextMap::new();
    assert!(CacheHints::from_response_headers(&headers, 100).is_none());
    headers.insert(s("last-modified"), s("Mon"));
    let dated = CacheHints::from_response_headers(&headers, 100).unwrap();
    assert_eq!(dated.expires_at, None);
    assert_eq!(dated.to_conditional(), Some((s("If-Modified-Since"), s("Mon"))));
    headers.insert(s("etag"), s("\"x\""));
    headers.insert(s("cache-control"), s("max-age=60"));
    let hints = CacheHints::from_response_headers(&headers, 100).unwrap();
    assert_eq!(hints.expires_at, Some(160));
    assert_eq!(hints.to_conditional(), Some((s("If-None-Match"), s("\"x\""))));
    let late = CacheHints::from_response_headers(&headers, u64::MAX).unwrap();
    assert_eq!(late.expires_at, None);
    let bare = CacheHints { expires_at: Some(1), etag: None, last_modified: None };
    assert_eq!(bare.to_conditional(), None);
}

#[test]
fn formats_stand_in_groups() {
    let formats = supported_formats();
    let mut start = 0;
    let mut kinds = Vec::new();
    while start < formats.len() {
        let end = group_end(&formats, start);
        assert!(formats[start..end].iter().all(|f| f.kind == formats[start].kind));
        kinds.push(formats[start].kind);
        start = end;
    }
    let before = kinds.len();
    kinds.dedup();
    assert_eq!(kinds.len(), before);
}
