//! The pipeline of a cook: the cache phase, the steps behind it, the chain of
//! higher tiers, and the finish.
use vstd::prelude::*;
use vstd::string::*;

use crate::bytes::copy_range;
use crate::cook::{
    cache_key_model,
    cache_key_of,
    closed_cook,
    expiry,
    handoff_applied,
    min_expiry,
    slug,
    kind_slug,
    stamped,
    stores,
    took_over,
    CacheFind,
    CacheHints,
    CookStatus,
    HandoffResponse,
    NextStep,
    PlaceholderIcons,
    ResolveStep,
    SourceIdentity,
    ThumbCook,
};
use crate::dispatch::{route, routes_to, tier3_can_handle, Tier3Registry};
use crate::fetch::asks_by;
use crate::media::FileKind;
use crate::number::{decimal, decimal_of};
use crate::result::{RenderHandler, ResultSource, ResultStatus};
use crate::text::{opt_text, owned, same};

verus! {

/// The identity under which a source is cached before it is fetched: its
/// canonical URL, or else the URL itself.
pub open spec fn url_identity(canonical: Option<Seq<char>>, url: Seq<char>) -> Seq<char> {
    match canonical {
        Some(c) => c,
        None => url,
    }
}

/// The identity under which a fetched source is cached: its canonical URL, its
/// URL behind redirects, or that of the request.
pub open spec fn source_identity(src: SourceIdentity, canonical: Option<Seq<char>>, url: Seq<char>) -> Seq<
    char,
> {
    match (src.canonical_url, src.final_url) {
        (Some(c), _) => c@,
        (None, Some(f)) => f@,
        (None, None) => url_identity(canonical, url),
    }
}

/// The caller's own copy is still fresh.
pub open spec fn caller_fresh(c: ThumbCook, now: u64) -> bool {
    match c.input.cache {
        Some(h) => h.fresh(now),
        None => false,
    }
}

/// Hints that are there and still fresh.
pub open spec fn hints_fresh(hints: Option<CacheHints>, now: u64) -> bool {
    match hints {
        Some(h) => h.fresh(now),
        None => false,
    }
}

/// The state of a cook that is to take a step of the cache phase: the phase has
/// begun, it is resolved exactly where the cook has come to its end, and it goes
/// on where the cook has not.
pub open spec fn is_phase_state(step: ResolveStep, c: ThumbCook) -> bool {
    c.cache_resolved && ((step == ResolveStep::Resolved) == (c.status != CookStatus::Processing))
}

/// The hints by which the source is asked for changes: those of the stale result
/// that was kept, or else those of the caller.
pub open spec fn request_hints(c: ThumbCook) -> Option<CacheHints> {
    match c.stale {
        Some(f) => f.hints,
        None => c.input.cache,
    }
}

/// A cached result ends the cook: it was taken over, the connection is closed.
pub open spec fn served_from_cache(
    c: ThumbCook,
    before: ThumbCook,
    find: CacheFind,
    canonical: bool,
) -> bool {
    &&& took_over(c, before, find.result, canonical)
    &&& c.status == CookStatus::Complete
    &&& c.out_download_bytes == find.result.download_size
    &&& c.src == SourceIdentity { cache_hints: find.hints, ..before.src }
    &&& c.cache_hit == Some(find.backend)
    &&& c == ThumbCook {
        status: c.status,
        out_message: c.out_message,
        out_placeholder: c.out_placeholder,
        out_thumbnail: c.out_thumbnail,
        media: c.media,
        out_download_bytes: c.out_download_bytes,
        src: c.src,
        cache_hit: c.cache_hit,
        ..closed_cook(before)
    }
}

impl ThumbCook {
    /// Starts the cache phase. A caller whose own copy is fresh needs nothing;
    /// the cache is asked before the source unless the caller has hints or the
    /// cook serves a handoff.
    pub fn resolve_start(&mut self, now: u64) -> (r: ResolveStep)
        ensures
            *final(self) == (if caller_fresh(*old(self), now) {
                ThumbCook { cache_resolved: true, status: CookStatus::Fresh, ..*old(self) }
            } else {
                ThumbCook { cache_resolved: true, ..*old(self) }
            }),
            r == (if caller_fresh(*old(self), now) {
                ResolveStep::Resolved
            } else if !old(self).ctx_handoff && old(self).input.cache is None {
                ResolveStep::LookupBefore
            } else {
                ResolveStep::Connect
            }),
            final(self).input == old(self).input,
            old(self).status == CookStatus::Processing ==> is_phase_state(r, *final(self)),
    {
        self.cache_resolved = true;
        let fresh = match &self.input.cache {
            Some(h) => h.is_fresh(now),
            None => false,
        };
        if fresh {
            self.status = CookStatus::Fresh;
            return ResolveStep::Resolved;
        }
        if !self.ctx_handoff && self.input.cache.is_none() {
            ResolveStep::LookupBefore
        } else {
            ResolveStep::Connect
        }
    }

    /// The key to look up before connecting, given the canonical form of the
    /// URL where it has one.
    pub fn key_before(&self, canonical: &Option<String>) -> (r: String)
        ensures
            r@ == cache_key_model(
                opt_text(self.ctx_customer_id),
                url_identity(opt_text(*canonical), self.input.url@),
            ),
    {
        match canonical {
            Some(c) => cache_key_of(&self.ctx_customer_id, c.as_str()),
            None => cache_key_of(&self.ctx_customer_id, self.input.url.as_str()),
        }
    }

    /// Serves a cached result.
    fn serve_cached(&mut self, find: CacheFind, canonical: bool)
        ensures
            served_from_cache(*final(self), *old(self), find, canonical),
    {
        self.close();
        self.out_download_bytes = find.result.download_size;
        self.take_over(find.result, canonical);
        self.src.cache_hints = find.hints;
        self.cache_hit = Some(find.backend);
        self.status = CookStatus::Complete;
    }

    /// Goes on with what the lookup before connecting found. A fresh result is
    /// served; a stale one is kept, and its hints go into the request.
    pub fn on_lookup_before(&mut self, found: Option<CacheFind>, now: u64) -> (r: ResolveStep)
        ensures
            match found {
                Some(f) => if hints_fresh(f.hints, now) {
                    r == ResolveStep::Resolved && served_from_cache(
                        *final(self),
                        *old(self),
                        f,
                        true,
                    )
                } else {
                    r == ResolveStep::Connect && *final(self) == (ThumbCook {
                        stale: Some(f),
                        ..*old(self)
                    })
                },
                None => r == ResolveStep::Connect && *final(self) == *old(self),
            },
            final(self).input == old(self).input,
            is_phase_state(ResolveStep::LookupBefore, *old(self)) ==> is_phase_state(r, *final(self)),
    {
        let find = match found {
            Some(f) => f,
            None => return ResolveStep::Connect,
        };
        let fresh = match &find.hints {
            Some(h) => h.is_fresh(now),
            None => false,
        };
        if fresh {
            self.serve_cached(find, true);
            return ResolveStep::Resolved;
        }
        self.stale = Some(find);
        ResolveStep::Connect
    }

    /// The header that makes the request for the source conditional, by the hints
    /// of the stale result that was kept or else by those of the caller.
    pub fn conditional_header(&self) -> (r: Option<(String, String)>)
        ensures
            match request_hints(*self) {
                Some(h) => asks_by(h, r),
                None => r is None,
            },
    {
        let hints = match &self.stale {
            Some(find) => &find.hints,
            None => &self.input.cache,
        };
        match hints {
            Some(h) => h.to_conditional(),
            None => None,
        }
    }

    /// Goes on once connecting is done, given the canonical form of the
    /// request's URL. A terminal status ends the phase: where the source is
    /// unchanged, the stale result that was kept is taken over. Otherwise the
    /// cache key is derived and, unless the cook serves a handoff, looked up.
    pub fn on_connected(&mut self, canonical: &Option<String>) -> (r: ResolveStep)
        ensures
            old(self).status != CookStatus::Processing ==> {
                &&& r == ResolveStep::Resolved
                &&& final(self).status == old(self).status
                &&& if old(self).status == CookStatus::Fresh && old(self).stale is Some {
                    let f = old(self).stale->0;
                    &&& took_over(*final(self), *old(self), f.result, true)
                    &&& final(self).src == (SourceIdentity { cache_hints: f.hints, ..old(self).src })
                    &&& final(self).cache_hit == Some(f.backend)
                    &&& final(self).stale is None
                    &&& final(self).out_download_bytes == (if f.result.download_size == 0 {
                        old(self).http_fetched
                    } else {
                        f.result.download_size
                    })
                    &&& *final(self) == (ThumbCook {
                        out_message: final(self).out_message,
                        out_placeholder: final(self).out_placeholder,
                        out_thumbnail: final(self).out_thumbnail,
                        media: final(self).media,
                        src: final(self).src,
                        cache_hit: final(self).cache_hit,
                        stale: final(self).stale,
                        out_download_bytes: final(self).out_download_bytes,
                        ..*old(self)
                    })
                } else {
                    *final(self) == stamped(*old(self))
                }
            },
            old(self).status == CookStatus::Processing ==> {
                &&& r == (if old(self).ctx_handoff {
                    ResolveStep::Unresolved
                } else {
                    ResolveStep::LookupAfter
                })
                &&& opt_text(final(self).src.cache_key) == Some(
                    cache_key_model(
                        opt_text(old(self).ctx_customer_id),
                        source_identity(old(self).src, opt_text(*canonical), old(self).input.url@),
                    ),
                )
                &&& opt_text(final(self).src.cache_key_source) == Some("url"@)
                &&& final(self).src == (SourceIdentity {
                    cache_key: final(self).src.cache_key,
                    cache_key_source: final(self).src.cache_key_source,
                    ..old(self).src
                })
                &&& *final(self) == (ThumbCook { src: final(self).src, ..*old(self) })
            },
            final(self).input == old(self).input,
            old(self).cache_resolved ==> is_phase_state(r, *final(self)),
    {
        if !self.status.is_processing() {
            if self.status == CookStatus::Fresh {
                let mut kept: Option<CacheFind> = None;
                std::mem::swap(&mut kept, &mut self.stale);
                if let Some(find) = kept {
                    self.out_download_bytes = find.result.download_size;
                    self.take_over(find.result, true);
                    self.src.cache_hints = find.hints;
                    self.cache_hit = Some(find.backend);
                }
            }
            self.stamp_download_bytes();
            return ResolveStep::Resolved;
        }
        let key = match (&self.src.canonical_url, &self.src.final_url) {
            (Some(c), _) => cache_key_of(&self.ctx_customer_id, c.as_str()),
            (None, Some(f)) => cache_key_of(&self.ctx_customer_id, f.as_str()),
            (None, None) => self.key_before(canonical),
        };
        self.src.cache_key = Some(key);
        self.src.cache_key_source = Some(owned("url"));
        if self.ctx_handoff {
            ResolveStep::Unresolved
        } else {
            ResolveStep::LookupAfter
        }
    }

    /// Goes on with what the lookup behind connecting found: a result is
    /// served, whatever its freshness.
    pub fn on_lookup_after(&mut self, found: Option<CacheFind>) -> (r: ResolveStep)
        ensures
            match found {
                Some(f) => r == ResolveStep::Resolved && served_from_cache(
                    *final(self),
                    *old(self),
                    f,
                    false,
                ),
                None => r == ResolveStep::Unresolved && *final(self) == *old(self),
            },
            final(self).input == old(self).input,
            is_phase_state(ResolveStep::LookupAfter, *old(self)) ==> is_phase_state(r, *final(self)),
    {
        match found {
            Some(f) => {
                self.serve_cached(f, false);
                ResolveStep::Resolved
            },
            None => ResolveStep::Unresolved,
        }
    }

    /// Where a run starts: at the cache phase, or behind it where it has run.
    pub fn run_start(&self) -> (r: NextStep)
        ensures
            r == (if !self.cache_resolved {
                NextStep::ResolveCache
            } else if self.status != CookStatus::Processing {
                NextStep::Finish
            } else {
                step_behind_cache(*self)
            }),
    {
        if !self.cache_resolved {
            NextStep::ResolveCache
        } else if !self.status.is_processing() {
            NextStep::Finish
        } else {
            self.behind_cache()
        }
    }

    fn behind_cache(&self) -> (r: NextStep)
        ensures
            r == step_behind_cache(*self),
    {
        if self.ctx_handoff {
            NextStep::Shortcut
        } else {
            NextStep::Inspect
        }
    }

    /// Where a run goes from the cache phase.
    pub fn after_cache(&self, resolved: bool) -> (r: NextStep)
        ensures
            r == (if resolved {
                NextStep::Finish
            } else {
                step_behind_cache(*self)
            }),
    {
        if resolved {
            NextStep::Finish
        } else {
            self.behind_cache()
        }
    }

    /// Where a run goes from the inspection.
    pub fn after_inspect(&mut self) -> (r: NextStep)
        ensures
            old(self).status == CookStatus::Processing ==> r == NextStep::Shortcut && *final(self)
                == *old(self),
            old(self).status != CookStatus::Processing ==> r == NextStep::Finish && *final(self)
                == stamped(*old(self)),
    {
        if !self.status.is_processing() {
            self.stamp_download_bytes();
            NextStep::Finish
        } else {
            NextStep::Shortcut
        }
    }

    /// Where a run goes from the shortcuts: a complete cook is finished, a
    /// decoded image is delivered, an account over its quota gets no render,
    /// and anything else goes to the renderer or up the tiers.
    pub fn after_shortcut(&mut self, has_renderer: bool, now: u64) -> (r: NextStep)
        requires
            match old(self).render_disabled_ttl_secs {
                Some(ttl) => now + ttl <= u64::MAX,
                None => true,
            },
        ensures
            r == step_behind_shortcut(*old(self), has_renderer),
            *final(self) == cook_behind_shortcut(
                *old(self),
                now,
                final(self).src.cache_hints,
                final(self).out_message,
            ),
            old(self).status != CookStatus::Complete && !old(self).has_image
                && old(self).render_disabled ==> final(self).out_message@
                == "render quota reached"@,
            quota_hints_due(*old(self)) ==> final(self).src.cache_hints == Some(
                CacheHints {
                    expires_at: Some((now + old(self).render_disabled_ttl_secs->0) as u64),
                    etag: None,
                    last_modified: None,
                },
            ),
    {
        self.stamp_download_bytes();
        if self.status == CookStatus::Complete {
            if !self.ctx_handoff && self.src.cache_key.is_some() && self.render_disabled {
                if let Some(ttl) = self.render_disabled_ttl_secs {
                    self.src.cache_hints = Some(CacheHints::expiring_in(now, ttl));
                }
            }
            return NextStep::Finish;
        }
        if self.has_image {
            return NextStep::Deliver;
        }
        if self.render_disabled {
            self.status = CookStatus::Failed;
            self.out_message = owned("render quota reached");
            return NextStep::Finish;
        }
        if has_renderer {
            NextStep::Render
        } else {
            NextStep::Handoff
        }
    }

    /// Until when the result of a finished cook is to be cached; nothing where
    /// it is not to be cached. A complete shortcut of an account over its quota
    /// is cached until the quota window ends.
    pub fn store_until(
        &self,
        from_shortcut: bool,
        now: u64,
        default_ttl: u64,
        max_ttl: u64,
    ) -> (r: Option<u64>)
        requires
            now + default_ttl <= u64::MAX,
            now + max_ttl <= u64::MAX,
            match self.render_disabled_ttl_secs {
                Some(ttl) => now + ttl <= u64::MAX,
                None => true,
            },
        ensures
            match r {
                Some(t) => stores(*self) && t == (match (from_shortcut, self.render_disabled_ttl_secs) {
                    (true, Some(ttl)) => now + ttl,
                    _ => expiry(self.src.cache_hints, now, default_ttl, max_ttl),
                }),
                None => !stores(*self),
            },
    {
        if self.ctx_handoff || self.status != CookStatus::Complete || self.src.cache_key.is_none() {
            return None;
        }
        if from_shortcut {
            if let Some(ttl) = self.render_disabled_ttl_secs {
                return Some(now + ttl);
            }
        }
        Some(self.cache_expires_at(now, default_ttl, max_ttl))
    }

    /// Until when the result may be cached.
    pub fn cache_expires_at(&self, now: u64, default_ttl: u64, max_ttl: u64) -> (r: u64)
        requires
            now + default_ttl <= u64::MAX,
            now + max_ttl <= u64::MAX,
        ensures
            r == expiry(self.src.cache_hints, now, default_ttl, max_ttl),
    {
        let at: u64 = match &self.src.cache_hints {
            Some(h) => match h.expires_at {
                Some(t) => t,
                None => now + default_ttl,
            },
            None => now + default_ttl,
        };
        let most: u64 = now + max_ttl;
        if at < most {
            at
        } else {
            most
        }
    }

    /// Where a run goes from the in-process renderer. A renderer that claimed
    /// the format has left an image or a failure; one that did not leaves the
    /// format to a higher tier.
    pub fn after_render(&mut self, claimed: bool) -> (r: NextStep)
        ensures
            claimed ==> {
                &&& r == (if old(self).has_image {
                    NextStep::Deliver
                } else {
                    NextStep::Finish
                })
                &&& *final(self) == (ThumbCook {
                    render_handler: if old(self).ctx_handoff {
                        RenderHandler::Handoff
                    } else {
                        RenderHandler::Builtin
                    },
                    out_download_bytes: match (old(self).render_bytes_consumed, old(self).media.file_size) {
                        (Some(n), _) => n,
                        (None, Some(n)) => n,
                        (None, None) => old(self).out_download_bytes,
                    },
                    ..*old(self)
                })
            },
            !claimed ==> {
                &&& r == NextStep::Handoff
                &&& *final(self) == (ThumbCook {
                    placeholder_source: Some(ResultSource::Fallback),
                    ..*old(self)
                })
            },
    {
        if !claimed {
            self.placeholder_source = Some(ResultSource::Fallback);
            return NextStep::Handoff;
        }
        self.render_handler = if self.ctx_handoff {
            RenderHandler::Handoff
        } else {
            RenderHandler::Builtin
        };
        if let Some(n) = self.render_bytes_consumed {
            self.out_download_bytes = n;
        } else if let Some(n) = self.media.file_size {
            self.out_download_bytes = n;
        }
        if self.has_image {
            NextStep::Deliver
        } else {
            NextStep::Finish
        }
    }

    /// Notes the outcome of one handoff, and says whether it ends the chain. A
    /// tier that succeeded has its answer applied; any other outcome leaves a
    /// message and the next tier to try.
    pub fn on_handoff(
        &mut self,
        outcome: Result<HandoffResponse, String>,
        tier: u8,
        local_bytes: u64,
    ) -> (done: bool)
        ensures
            done == handoff_succeeded(outcome),
            done ==> {
                &&& final(self).status == CookStatus::Complete
                &&& handoff_applied(*final(self), *old(self), outcome->Ok_0, tier, local_bytes)
            },
            !done ==> {
                &&& final(self).out_message@ == handoff_message(outcome, tier)
                &&& *final(self) == (ThumbCook {
                    out_message: final(self).out_message,
                    ..*old(self)
                })
            },
    {
        match outcome {
            Ok(remote) => {
                if remote.result.status == ResultStatus::Success {
                    self.apply_handoff_response(remote, tier, local_bytes);
                    return true;
                }
                let status = remote.result.status;
                self.out_message = match remote.result.message {
                    Some(m) => m,
                    None => {
                        let t = decimal_of(tier as u64);
                        owned("tier ").concat(t.as_str()).concat(" returned status ").concat(
                            status_name(status),
                        )
                    },
                };
                false
            },
            Err(e) => {
                let t = decimal_of(tier as u64);
                self.out_message = owned("handoff to tier ").concat(t.as_str()).concat(
                    " failed: ",
                ).concat(e.as_str());
                false
            },
        }
    }

    /// Ends a chain in which no tier succeeded: a failure where one was tried,
    /// a placeholder where none is configured.
    pub fn handoff_exhausted(&mut self, tried_any: bool)
        ensures
            tried_any ==> *final(self) == (ThumbCook { status: CookStatus::Failed, ..*old(self) }),
            !tried_any ==> {
                &&& *final(self) == (ThumbCook {
                    status: CookStatus::Complete,
                    placeholder_source: Some(ResultSource::Placeholder),
                    out_message: final(self).out_message,
                    ..*old(self)
                })
                &&& final(self).out_message@ == "no higher-tier renderer is configured"@
            },
    {
        if tried_any {
            self.status = CookStatus::Failed;
        } else {
            self.status = CookStatus::Complete;
            self.placeholder_source = Some(ResultSource::Placeholder);
            self.out_message = owned("no higher-tier renderer is configured");
        }
    }

    /// Ends the cook. One without a thumbnail gets a placeholder, unless the
    /// caller is to use its own copy: that of the category where it is known,
    /// and a failure to render then counts as complete; else the generic one,
    /// or that of failures.
    pub fn finish(&mut self, icons: &PlaceholderIcons, now: u64)
        requires
            now + 86400 <= u64::MAX,
            match old(self).render_disabled_ttl_secs {
                Some(ttl) => now + ttl <= u64::MAX,
                None => true,
            },
        ensures
            is_finished(*final(self), *old(self), *icons, now),
    {
        self.stamp_download_bytes();
        if self.out_thumbnail.len() > 0 || self.status == CookStatus::Fresh {
            return;
        }
        match self.media.kind {
            Some(kind) => self.finish_with_kind(kind, icons.for_kind(kind), now),
            None => self.finish_without_kind(icons),
        }
    }

    /// Ends a cook of a known category with its placeholder.
    fn finish_with_kind(&mut self, kind: FileKind, icon: &[u8], now: u64)
        requires
            now + 86400 <= u64::MAX,
            match old(self).render_disabled_ttl_secs {
                Some(ttl) => now + ttl <= u64::MAX,
                None => true,
            },
        ensures
            finished_with_kind(*final(self), *old(self), kind, icon@, now),
    {
        let tried_render = self.status == CookStatus::Failed;
        if tried_render {
            self.status = CookStatus::Complete;
            self.placeholder_source = Some(ResultSource::Fallback);
        }
        self.out_thumbnail = copy_range(icon, 0, icon.len());
        assert(self.out_thumbnail@ =~= icon@);
        self.out_placeholder = Some(owned(kind_slug(kind)));
        let mut hints: Option<CacheHints> = None;
        std::mem::swap(&mut hints, &mut self.src.cache_hints);
        self.src.cache_hints = Some(
            placeholder_hints_of(tried_render, hints, self.render_disabled_ttl_secs, now),
        );
    }

    /// Ends a cook whose category never became known.
    fn finish_without_kind(&mut self, icons: &PlaceholderIcons)
        ensures
            final(self).out_thumbnail@ == (if infrastructure_failure(*old(self)) {
                icons.failed@
            } else {
                icons.unknown@
            }),
            opt_text(final(self).out_placeholder) == Some(
                if infrastructure_failure(*old(self)) {
                    "failed"@
                } else {
                    "unknown"@
                },
            ),
            *final(self) == (ThumbCook {
                out_thumbnail: final(self).out_thumbnail,
                out_placeholder: final(self).out_placeholder,
                ..*old(self)
            }),
    {
        let failed = self.status == CookStatus::Failed || match &self.out_placeholder {
            Some(p) => same(p.as_str(), "error") || same(p.as_str(), "failed"),
            None => false,
        };
        let icon = if failed {
            icons.failed.as_slice()
        } else {
            icons.unknown.as_slice()
        };
        self.out_thumbnail = copy_range(icon, 0, icon.len());
        assert(self.out_thumbnail@ =~= icon@);
        self.out_placeholder = Some(
            owned(
                if failed {
                    "failed"
                } else {
                    "unknown"
                },
            ),
        );
    }
}

/// The freshness of a placeholder. What was tried and failed may be tried again
/// after an hour at the earliest; what no renderer handles after a day, or when
/// the quota window ends.
pub open spec fn placeholder_hints(
    tried: bool,
    hints: Option<CacheHints>,
    quota_ttl: Option<u64>,
    now: u64,
) -> CacheHints {
    if tried {
        match hints {
            Some(h) => CacheHints { expires_at: Some(min_expiry(h.expires_at, now, 3600)), ..h },
            None => CacheHints {
                expires_at: Some((now + 3600) as u64),
                etag: None,
                last_modified: None,
            },
        }
    } else {
        CacheHints {
            expires_at: Some(
                (now + match quota_ttl {
                    Some(ttl) => ttl,
                    None => 86400u64,
                }) as u64,
            ),
            etag: None,
            last_modified: None,
        }
    }
}

/// Computes the freshness of a placeholder.
fn placeholder_hints_of(
    tried: bool,
    hints: Option<CacheHints>,
    quota_ttl: Option<u64>,
    now: u64,
) -> (r: CacheHints)
    requires
        now + 86400 <= u64::MAX,
        match quota_ttl {
            Some(ttl) => now + ttl <= u64::MAX,
            None => true,
        },
    ensures
        r == placeholder_hints(tried, hints, quota_ttl, now),
{
    if tried {
        match hints {
            Some(h) => h.with_min_expiry(now, 3600),
            None => CacheHints::expiring_in(now, 3600),
        }
    } else {
        match quota_ttl {
            Some(ttl) => CacheHints::expiring_in(now, ttl),
            None => CacheHints::expiring_in(now, 86400),
        }
    }
}

/// Behind the cache phase a cook that serves a handoff needs no inspection.
pub open spec fn step_behind_cache(c: ThumbCook) -> NextStep {
    if c.ctx_handoff {
        NextStep::Shortcut
    } else {
        NextStep::Inspect
    }
}

/// The step that follows the shortcuts.
pub open spec fn step_behind_shortcut(c: ThumbCook, has_renderer: bool) -> NextStep {
    if c.status == CookStatus::Complete {
        NextStep::Finish
    } else if c.has_image {
        NextStep::Deliver
    } else if c.render_disabled {
        NextStep::Finish
    } else if has_renderer {
        NextStep::Render
    } else {
        NextStep::Handoff
    }
}

/// A complete shortcut of an account over its quota is to expire with the quota
/// window.
pub open spec fn quota_hints_due(c: ThumbCook) -> bool {
    c.status == CookStatus::Complete && !c.ctx_handoff && c.src.cache_key is Some
        && c.render_disabled && c.render_disabled_ttl_secs is Some
}

/// The cook behind the shortcuts, with these hints and this message where they
/// change.
pub open spec fn cook_behind_shortcut(
    before: ThumbCook,
    now: u64,
    hints: Option<CacheHints>,
    message: String,
) -> ThumbCook {
    let c = stamped(before);
    if c.status == CookStatus::Complete {
        if quota_hints_due(c) {
            ThumbCook { src: SourceIdentity { cache_hints: hints, ..c.src }, ..c }
        } else {
            c
        }
    } else if !c.has_image && c.render_disabled {
        ThumbCook { status: CookStatus::Failed, out_message: message, ..c }
    } else {
        c
    }
}

/// A cook without a thumbnail gets one, unless the caller has its own.
pub open spec fn needs_placeholder(c: ThumbCook) -> bool {
    c.out_thumbnail@.len() == 0 && c.status != CookStatus::Fresh
}

/// The source's category never became known because something failed.
pub open spec fn infrastructure_failure(c: ThumbCook) -> bool {
    c.status == CookStatus::Failed || opt_text(c.out_placeholder) == Some("error"@) || opt_text(
        c.out_placeholder,
    ) == Some("failed"@)
}

/// The cook ended with the placeholder of its category; a failure to render
/// counts as complete.
pub open spec fn finished_with_kind(
    f: ThumbCook,
    c: ThumbCook,
    kind: FileKind,
    icon: Seq<u8>,
    now: u64,
) -> bool {
    let tried = c.status == CookStatus::Failed;
    &&& f.out_thumbnail@ == icon
    &&& opt_text(f.out_placeholder) == Some(slug(kind))
    &&& f.src.cache_hints == Some(
        placeholder_hints(tried, c.src.cache_hints, c.render_disabled_ttl_secs, now),
    )
    &&& f == ThumbCook {
        status: if tried {
            CookStatus::Complete
        } else {
            c.status
        },
        placeholder_source: if tried {
            Some(ResultSource::Fallback)
        } else {
            c.placeholder_source
        },
        out_thumbnail: f.out_thumbnail,
        out_placeholder: f.out_placeholder,
        src: SourceIdentity { cache_hints: f.src.cache_hints, ..c.src },
        ..c
    }
}

/// `f` is the finished form of the cook `before`.
pub open spec fn is_finished(f: ThumbCook, before: ThumbCook, icons: PlaceholderIcons, now: u64) -> bool {
    let c = stamped(before);
    if !needs_placeholder(c) {
        f == c
    } else if c.media.kind is Some {
        finished_with_kind(f, c, c.media.kind->0, icons.icon(c.media.kind->0), now)
    } else {
        &&& f.out_thumbnail@ == (if infrastructure_failure(c) {
            icons.failed@
        } else {
            icons.unknown@
        })
        &&& opt_text(f.out_placeholder) == Some(
            if infrastructure_failure(c) {
                "failed"@
            } else {
                "unknown"@
            },
        )
        &&& f == ThumbCook {
            out_thumbnail: f.out_thumbnail,
            out_placeholder: f.out_placeholder,
            ..c
        }
    }
}

/// How a result status is named in messages.
pub open spec fn spec_status_name(s: ResultStatus) -> Seq<char> {
    match s {
        ResultStatus::Success => "Success"@,
        ResultStatus::Failed => "Failed"@,
        ResultStatus::Overloaded => "Overloaded"@,
        ResultStatus::Intermediate => "Intermediate"@,
        ResultStatus::BatchLimit => "BatchLimit"@,
    }
}

fn status_name(s: ResultStatus) -> (r: &'static str)
    ensures
        r@ == spec_status_name(s),
{
    match s {
        ResultStatus::Success => "Success",
        ResultStatus::Failed => "Failed",
        ResultStatus::Overloaded => "Overloaded",
        ResultStatus::Intermediate => "Intermediate",
        ResultStatus::BatchLimit => "BatchLimit",
    }
}

/// A tier answered with a success.
pub open spec fn handoff_succeeded(outcome: Result<HandoffResponse, String>) -> bool {
    match outcome {
        Ok(remote) => remote.result.status == ResultStatus::Success,
        Err(_) => false,
    }
}

/// The message that a handoff without success leaves.
pub open spec fn handoff_message(outcome: Result<HandoffResponse, String>, tier: u8) -> Seq<char> {
    match outcome {
        Ok(remote) => match remote.result.message {
            Some(m) => m@,
            None => "tier "@ + decimal(tier as nat) + " returned status "@ + spec_status_name(
                remote.result.status,
            ),
        },
        Err(e) => "handoff to tier "@ + decimal(tier as nat) + " failed: "@ + e@,
    }
}

/// The tier at which a handoff chain starts: where the item is routed, but an
/// image of tier 1 starts at tier 2 where that is configured.
pub open spec fn start_tier(routed: int, kind: Option<FileKind>, has_tier2: bool) -> int {
    if routed == 1 && kind == Some(FileKind::Image) && has_tier2 {
        2
    } else {
        routed
    }
}

/// The tiers to try in ascending order: those from the start on that are
/// configured; tier 3 only for what it can handle.
pub open spec fn tiers_from(start: int, has_tier2: bool, has_tier3: bool, tier3_handles: bool) -> Seq<
    u8,
> {
    let two = if start <= 2 && has_tier2 {
        seq![2u8]
    } else {
        Seq::<u8>::empty()
    };
    if start <= 3 && has_tier3 && tier3_handles {
        two.push(3u8)
    } else {
        two
    }
}

/// Lists the tiers to try for an item that this server did not render. Where the
/// category is unknown the chain starts at tier 2.
pub fn handoff_tiers(
    kind: Option<FileKind>,
    ext: &str,
    has_tier2: bool,
    has_tier3: bool,
    registry: &Tier3Registry,
) -> (r: Vec<u8>)
    ensures
        exists|routed: u8| #[trigger]
            routed_tier(kind, ext@, routed) && r@ == tiers_from(
                start_tier(routed as int, kind, has_tier2),
                has_tier2,
                has_tier3,
                registry.handles(ext@),
            ),
{
    let routed: u8 = match kind {
        Some(k) => route(k, Some(ext)).tier,
        None => 2,
    };
    assert(routed_tier(kind, ext@, routed));
    let is_image = match kind {
        Some(FileKind::Image) => true,
        _ => false,
    };
    let start: u8 = if routed == 1 && is_image && has_tier2 {
        2
    } else {
        routed
    };
    let mut out: Vec<u8> = Vec::new();
    if start <= 2 && has_tier2 {
        out.push(2);
    }
    if start <= 3 && has_tier3 && tier3_can_handle(registry, ext) {
        out.push(3);
    }
    assert(out@ =~= tiers_from(
        start_tier(routed as int, kind, has_tier2),
        has_tier2,
        has_tier3,
        registry.handles(ext@),
    ));
    out
}

/// The tier that an item is routed to; tier 2 where its category is unknown.
pub open spec fn routed_tier(kind: Option<FileKind>, ext: Seq<char>, tier: u8) -> bool {
    match kind {
        Some(k) => routes_to(k, Some(ext), tier),
        None => tier == 2,
    }
}

/// A finished cook always has a thumbnail, unless the caller is to use its own
/// copy; and a source whose category is known is never reported as failed.
pub proof fn law_always_a_thumbnail(f: ThumbCook, before: ThumbCook, icons: PlaceholderIcons, now: u64)
    requires
        is_finished(f, before, icons, now),
        forall|kind: FileKind| (#[trigger] icons.icon(kind)).len() > 0,
        icons.failed@.len() > 0,
    ensures
        f.status == CookStatus::Fresh || f.out_thumbnail@.len() > 0,
        before.media.kind is Some && before.out_thumbnail@.len() == 0 ==> f.status
            != CookStatus::Failed,
{
    assert(icons.icon(FileKind::Unknown) == icons.unknown@);
}

/// Finishing a finished cook changes nothing.
pub proof fn law_finish_once(f: ThumbCook, before: ThumbCook, icons: PlaceholderIcons, now: u64, g: ThumbCook)
    requires
        is_finished(f, before, icons, now),
        is_finished(g, f, icons, now),
        forall|kind: FileKind| (#[trigger] icons.icon(kind)).len() > 0,
        icons.failed@.len() > 0,
    ensures
        g == f,
{
    assert(icons.icon(FileKind::Unknown) == icons.unknown@);
}

/// A result is never cached beyond the maximum from now.
pub proof fn law_expiry_capped(hints: Option<CacheHints>, now: u64, default_ttl: u64, max_ttl: u64)
    ensures
        expiry(hints, now, default_ttl, max_ttl) <= now + max_ttl,
{
}

/// A cook that serves a handoff neither reads the cache nor has its result
/// stored: the tier that took the request owns both.
pub proof fn law_handoff_bypasses_cache(c: ThumbCook)
    requires
        c.ctx_handoff,
    ensures
        !stores(c),
        step_behind_cache(c) == NextStep::Shortcut,
{
}

} // verus!
