use thumbrella::cache::dsn::{
    describe_dsn, mask_connect_string, open_from_dsn, validate_dsn, CacheBackend, CacheLink,
    MemBound, OpenedCache,
};
use thumbrella::cache::memory::MemoryCacheBackend;
use thumbrella::cache::size::{mem_capacity_for_bytes, mem_capacity_for_entries, parse_mem_size};
use thumbrella::cache::store::{chain_read, ChainStep};
use thumbrella::diag::ValidationStatus;

#[test]
fn test_parse_mem_size() {
    assert_eq!(parse_mem_size("").unwrap(), None);
    assert_eq!(parse_mem_size("100mb").unwrap(), Some((100 * 1024 * 1024, "bytes")));
    assert_eq!(parse_mem_size("2gb").unwrap(), Some((2 * 1024 * 1024 * 1024, "bytes")));
    assert_eq!(parse_mem_size("500").unwrap(), Some((500, "entries")));
    assert!(parse_mem_size("abc").is_err());
    assert!(parse_mem_size("0gb").is_err());
}

#[test]
fn none_disables() {
    for spec in ["none", "none:"] {
        assert!(matches!(open_from_dsn(spec), Ok(None)), "{spec:?}");
    }
    assert!(open_from_dsn("").is_err());
    assert!(open_from_dsn("   ").is_err());
}

#[test]
fn single_backends() {
    assert_eq!(open_from_dsn("mem").unwrap().unwrap().name(), "memory");
    assert_eq!(open_from_dsn("mem:200mb").unwrap().unwrap().name(), "memory");
    assert_eq!(open_from_dsn("mem:500").unwrap().unwrap().name(), "memory");
}

#[test]
fn chain_builds() {
    let chain = open_from_dsn("mem:20+mem:30").unwrap().unwrap();
    assert_eq!(chain.name(), "chain");
    let tiers = match chain {
        OpenedCache::Chain(c) => c.tiers,
        OpenedCache::Single(_) => panic!("a chain was asked for"),
    };
    let mut stores = Vec::new();
    for link in &tiers {
        match link {
            CacheLink::Memory(MemBound::Entries(n)) => {
                stores.push(MemoryCacheBackend::with_max_entries(*n))
            }
            other => panic!("unexpected link {other:?}"),
        }
    }
    assert_eq!(stores.len(), 2);
    let mut got = None;
    let mut step = chain_read(stores.len(), 0, false);
    let mut asked = 0;
    while let ChainStep::Ask { tier } = step {
        got = stores[tier].get("key", 0);
        asked += 1;
        step = chain_read(stores.len(), asked, got.is_some());
    }
    assert_eq!(step, ChainStep::Miss);
    assert!(got.is_none());
}

#[test]
fn reject_invalid() {
    assert!(open_from_dsn("bogus:x").is_err());
    assert!(open_from_dsn("mem:1gb,2gb").is_err());
    assert!(open_from_dsn("sqlite:").is_err());
    assert!(open_from_dsn("sqlite:/tmp/x.db,20").is_err());
    assert!(open_from_dsn("mem++mem").is_err());
    assert!(open_from_dsn("none+mem").is_err());
}

#[test]
fn validate_and_describe() {
    let spec = "mem:64mb+sqlite:/tmp/tbr-cache-test.db,1gb";
    let (v, fc) = validate_dsn(spec);
    assert_eq!(v.status, ValidationStatus::Passed);
    assert!(fc.is_some());
    assert_eq!(describe_dsn(spec), "mem:64mb+sqlite:/tmp/tbr-cache-test.db (max 1gb)");
    let (bad, _) = validate_dsn("mem:64mb+bogus");
    assert_eq!(bad.status, ValidationStatus::Error);
    let (blank, _) = validate_dsn("");
    assert_eq!(blank.status, ValidationStatus::Error);
    assert_eq!(describe_dsn("none"), "none (cache disabled)");
}

#[test]
fn fractional_sizes_round_down() {
    assert_eq!(parse_mem_size("1.5gb").unwrap(), Some((1_610_612_736, "bytes")));
    assert_eq!(parse_mem_size("0.5mb").unwrap(), Some((524_288, "bytes")));
    assert_eq!(parse_mem_size(" 20 MB ").unwrap(), Some((20_971_520, "bytes")));
    assert!(parse_mem_size("-5mb").is_err());
    assert_eq!(parse_mem_size("1e2mb").unwrap(), Some((104_857_600, "bytes")));
    assert_eq!(parse_mem_size("2.5E-1gb").unwrap(), Some((268_435_456, "bytes")));
    assert_eq!(parse_mem_size("1e99999999999999999999kb").unwrap(), Some((u64::MAX, "bytes")));
    assert_eq!(parse_mem_size("infkb").unwrap(), Some((u64::MAX, "bytes")));
    assert_eq!(parse_mem_size("1e-30kb").unwrap(), Some((0, "bytes")));
    for (spec, shown) in [("2e3gb", "2000"), ("+02000.50gb", "2000.5"), ("1e400gb", "inf"), ("infgb", "inf")] {
        assert_eq!(
            parse_mem_size(spec),
            Err(format!("GB size must be between 0 and 1024, got {shown}")),
        );
    }
    for (spec, shown) in [("-0kb", "-0"), ("-12.5e-3kb", "-0.0125"), ("0.0kb", "0"), ("-infkb", "-inf")] {
        assert_eq!(parse_mem_size(spec), Err(format!("KB size must be positive, got {shown}")));
    }
    assert!(parse_mem_size("1emb").is_err());
    assert!(parse_mem_size("e2mb").is_err());
    assert!(parse_mem_size("0").is_err());
}

/// What the size comes to in double precision.
fn by_double(num: &str, per: f64, most: f64) -> Result<u64, String> {
    let units: f64 = num.parse().unwrap();
    if units <= 0.0 || units > most {
        Err(format!("{units}"))
    } else {
        Ok((units * per) as u64)
    }
}

fn agrees(num: &str) {
    for (unit, per, most) in [
        ("kb", 1024.0, f64::INFINITY),
        ("mb", 1048576.0, 1048576.0),
        ("gb", 1073741824.0, 1024.0),
    ] {
        match (parse_mem_size(&format!("{num}{unit}")), by_double(num, per, most)) {
            (Ok(Some((bytes, "bytes"))), Ok(want)) => assert_eq!(bytes, want, "{num}{unit}"),
            (Err(text), Err(shown)) => {
                assert!(text.ends_with(&format!(", got {shown}")), "{num}{unit}: {text}")
            }
            other => panic!("{num}{unit}: {other:?}"),
        }
    }
}

#[test]
fn sizes_are_numbers_of_double_precision() {
    assert_eq!(parse_mem_size("0.9999999999999999999kb").unwrap(), Some((1024, "bytes")));
    assert_eq!(parse_mem_size("nangb").unwrap(), Some((0, "bytes")));
    assert_eq!(
        parse_mem_size("1e-400gb"),
        Err("GB size must be between 0 and 1024, got 0".to_string())
    );
    assert_eq!(
        parse_mem_size("1025.00000000000000001gb"),
        Err("GB size must be between 0 and 1024, got 1025".to_string())
    );
    for num in [
        "nan", "-NaN", "inf", "-infinity", "0", "-0", "-0.1", "0.1", "0.30000000000000004", "2.5e-324",
        "2.4703282292062327e-324", "2.4703282292062328e-324", "-5e-324", "-4.9e-324",
        "-2.2250738585072014e-308", "-2.2250738585072011e-308", "-1.7976931348623157e308",
        "1.7976931348623158e308", "1.7976931348623159e308", "-1.797693134862315807e308", "1e309",
        "9007199254740993", "9007199254740992.5", "-9007199254740993.00000000001", "1024.0000000000001",
        "1024.00000000000001", "1048576.0000000001", "1048576.00000000001", "-1e23", "-9.5e-7",
        "-5.684341886080801e-14", "-5.684341886080802e-14", "-123456789012345678901234567890",
        "00000000000000000001e3", ".5", "5.", "+7", "-0.000001", "1e-7", "18014398509481984", "1e22",
    ] {
        agrees(num);
    }
}

#[test]
fn sizes_agree_with_doubles_on_many_numbers() {
    let mut x: u64 = 88172645463325252;
    for i in 0..12u32 {
        x ^= x << 13;
        x ^= x >> 7;
        x ^= x << 17;
        agrees(&format!("-{x}e{}", (x % 600) as i64 - 330));
        agrees(&format!("-{}", f64::from_bits(x >> 1)));
        agrees(&format!("{}.{x}", x % 2000));
        agrees(&format!("{x}{x}.{x}e-{}", i % 60));
    }
}

#[test]
fn a_memory_cache_keeps_at_least_a_megabyte() {
    assert_eq!(mem_capacity_for_bytes(0), 1 << 20);
    assert_eq!(mem_capacity_for_bytes(5 << 20), 5 << 20);
    assert_eq!(mem_capacity_for_entries(500), 500);
}

#[test]
fn a_bad_link_says_which_one() {
    let message = open_from_dsn("mem:20+bogus").unwrap_err();
    assert!(message.contains("bogus"), "{message}");
}

#[test]
fn the_sqlite_link_carries_path_and_bound() {
    match open_from_dsn("sqlite:/tmp/x.db,2mb").unwrap().unwrap() {
        OpenedCache::Single(CacheLink::Sqlite { path, max_bytes }) => {
            assert_eq!(path, "/tmp/x.db");
            assert_eq!(max_bytes, Some(2 << 20));
        }
        other => panic!("unexpected {other:?}"),
    }
}

#[test]
fn a_masked_connect_string_hides_the_secret() {
    let masked = mask_connect_string("https://cache.example.com/v1,tok_abcdef");
    assert_eq!(masked, "https://cache.example.com/v1,***");
    assert_eq!(mask_connect_string("tok_abcdef"), "***");
}
