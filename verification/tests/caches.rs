use std::sync::Arc;

use thumbrella::cache::cloud::{is_source_identity, judge_lookup, judge_ping, judge_reply, snippet, LookupVerdict};
use thumbrella::cache::dsn::{CacheLink, MemBound};
use thumbrella::cache::flight::SingleFlight;
use thumbrella::cache::frontend::CacheFrontend;
use thumbrella::cache::memory::{unexpired, weight, MemoryCacheBackend};
use thumbrella::cache::store::{
    after_lead, after_sticky, after_wait, chain_read, evict_count, from_sticky, time_to_live,
    CacheStore, ChainStep, CheckStep,
};
use thumbrella::result::{ResultSource, ResultStatus, ThumbResult};
use thumbrella::token::{cache_token, token_hints};

fn s(t: &str) -> String {
    t.to_string()
}

#[test]
fn tokens_give_back_their_hints() {
    let token = cache_token(0x65a0_1bff, b"{\"etag\":\"a\"}");
    assert_eq!(token, "65a01bff:eyJldGFnIjoiYSJ9");
    assert_eq!(token_hints(&token), Some(b"{\"etag\":\"a\"}".to_vec()));
    assert_eq!(cache_token(0, b""), "0:");
    assert_eq!(token_hints("0:"), Some(Vec::new()));
    assert_eq!(token_hints("eyJldGFnIjoiYSJ9"), None);
    assert_eq!(token_hints("0:!"), None);
}

#[test]
fn lookup_replies_are_read() {
    assert_eq!(judge_reply(true, "{\"status\":\"miss\"}", false), LookupVerdict::Miss);
    assert_eq!(judge_reply(true, "{\"status\":\"miss\"}", true), LookupVerdict::Miss);
    assert_eq!(judge_reply(true, "{\"status\":7}", true), LookupVerdict::Hit);
    assert_eq!(judge_reply(true, "{}", false), LookupVerdict::Unusable);
    assert_eq!(judge_reply(true, "{", true), LookupVerdict::Unusable);
    assert_eq!(judge_reply(false, "{\"status\":\"miss\"}", true), LookupVerdict::Unusable);
}

fn result(url: &str) -> ThumbResult {
    ThumbResult {
        url: s(url),
        status: ResultStatus::Success,
        message: None,
        source: Some(ResultSource::Render),
        download_size: 3,
        http_status: None,
        media: None,
    }
}

#[test]
fn a_read_gives_back_the_write() {
    for mut cache in [
        MemoryCacheBackend::with_max_bytes(10 << 20),
        MemoryCacheBackend::with_max_entries(50),
        MemoryCacheBackend::default_cache(),
    ] {
        assert_eq!(cache.get("k", 0), None);
        cache.put(s("k"), s("v1"), 100, 0);
        assert_eq!(cache.get("k", 50), Some(s("v1")));
        cache.put(s("k"), s("v2"), 100, 0);
        assert_eq!(cache.get("k", 50), Some(s("v2")));
        assert_eq!(cache.get("k", 100), None);
        assert_eq!(cache.get("other", 50), None);
    }
}

#[test]
fn an_expired_write_is_not_kept() {
    let mut cache = MemoryCacheBackend::with_max_entries(5);
    cache.put(s("k"), s("v"), 100, 100);
    assert_eq!(cache.get("k", 99), None);
    assert_eq!(unexpired(5, s("v"), 4), Some(s("v")));
    assert_eq!(unexpired(5, s("v"), 5), None);
    assert_eq!(weight(7), 7);
}

#[test]
fn one_leader_and_the_rest_wait() {
    let mut flights = SingleFlight::new();
    assert_eq!(flights.try_lead("a", 0), Some(0));
    assert_eq!(flights.try_lead("a", 1), None);
    assert_eq!(flights.try_lead("b", 2), Some(2));
    assert_eq!(flights.try_lead("a", 3), None);
    assert_eq!(flights.complete("a"), vec![1, 3]);
    assert_eq!(flights.complete("a"), Vec::<i32>::new());
    assert_eq!(flights.try_lead("a", 4), Some(4));
}

#[test]
fn the_frontend_remembers_and_shares() {
    let mut front: CacheFrontend<u8> = CacheFrontend::new(60);
    assert!(front.sticky_check("k").is_none());
    front.sticky_store("k", Arc::new(result("https://e.com")));
    assert_eq!(front.sticky_check("k").unwrap().url, "https://e.com");
    assert_eq!(front.try_lead("k", 1), Some(1));
    assert_eq!(front.try_lead("k", 2), None);
    front.cancel("k");
    assert_eq!(front.try_lead("k", 3), Some(3));
    assert_eq!(front.complete("k"), Vec::<u8>::new());
}

#[test]
fn a_store_asks_step_by_step() {
    let link = || CacheLink::Memory(MemBound::Entries(3));
    let store = CacheStore::new(link(), 30);
    assert_eq!(store.backend_name(), "memory");
    assert_eq!(store.check_start(), CheckStep::AskSticky);
    assert_eq!(after_sticky(true), CheckStep::AnswerSticky);
    assert_eq!(after_sticky(false), CheckStep::TryLead);
    assert_eq!(after_lead(false), CheckStep::Wait);
    assert_eq!(after_lead(true), CheckStep::AskBackend);
    assert_eq!(after_wait(true), CheckStep::AnswerSticky);
    assert_eq!(after_wait(false), CheckStep::CancelAndAskBackend);
    let plain = CacheStore::backend_only(link());
    assert_eq!(plain.check_start(), CheckStep::AskBackend);
    let none: CacheStore<CacheLink> = CacheStore::none();
    assert_eq!(none.check_start(), CheckStep::Miss);
    assert_eq!(none.backend_name(), "none");
    let sticky = from_sticky(result("u"));
    assert_eq!(sticky.source, Some(ResultSource::Cache));
}

#[test]
fn a_chain_is_read_from_the_front() {
    assert_eq!(chain_read(2, 0, false), ChainStep::Ask { tier: 0 });
    assert_eq!(chain_read(2, 1, false), ChainStep::Ask { tier: 1 });
    assert_eq!(chain_read(2, 1, true), ChainStep::Hit);
    assert_eq!(chain_read(2, 2, false), ChainStep::Miss);
}

#[test]
fn eviction_stops_once_the_rest_fits() {
    assert_eq!(evict_count(&vec![5, 5, 5], 15), 0);
    assert_eq!(evict_count(&vec![5, 5, 5], 14), 1);
    assert_eq!(evict_count(&vec![5, 5, 5], 5), 2);
    assert_eq!(evict_count(&vec![5, 5, 5], 0), 3);
    assert_eq!(time_to_live(100, 40), Some(60));
    assert_eq!(time_to_live(40, 40), None);
}

#[test]
fn cloud_answers_are_judged() {
    assert_eq!(judge_lookup(true, true, Some("success"), true), LookupVerdict::Hit);
    assert_eq!(judge_lookup(true, true, Some("miss"), true), LookupVerdict::Miss);
    assert_eq!(judge_lookup(false, true, Some("success"), true), LookupVerdict::Unusable);
    assert_eq!(judge_lookup(true, false, None, true), LookupVerdict::Unusable);
    assert_eq!(judge_lookup(true, true, None, false), LookupVerdict::Unusable);
    assert!(judge_ping(true, "200 OK", Some("ok"), None, "").is_ok());
    assert!(judge_ping(false, "401 Unauthorized", None, Some("bad token"), "x").is_err());
    assert_eq!(snippet(" short "), "short");
    assert_eq!(snippet(&"x".repeat(1000)), format!("{}...", "x".repeat(200)));
    assert_eq!(snippet(&"\u{e9}x".repeat(100)), format!("{}...", "\u{e9}x".repeat(66) + "\u{e9}"));
    assert!(!is_source_identity("a/b"));
    assert!(is_source_identity("https://e.com"));
}
