//! Laws on cooks: what is kept of a result comes back, where a cook goes next, and
//! how long its result counts.
use vstd::prelude::*;

use crate::cook::{
    expiry,
    is_result,
    min_expiry,
    result_status,
    slug,
    status_of_job,
    text_or_empty,
    took_over,
    CacheHints,
    CookStatus,
    NextStep,
    PlaceholderIcons,
    ThumbCook,
};
use crate::media::{canonical_ext, FileKind};
use crate::pipeline::{
    is_finished,
    placeholder_hints,
    start_tier,
    step_behind_shortcut,
    tiers_from,
};
use crate::result::ThumbResult;
use crate::text::opt_text;

verus! {

/// What a cook reports comes back when its result is taken over by another: the
/// thumbnail, the message, the placeholder, and what is known of the source.
pub proof fn law_result_comes_back(
    c: ThumbCook,
    r: ThumbResult,
    token: Seq<char>,
    d: ThumbCook,
    before: ThumbCook,
)
    requires
        is_result(r, c, token),
        took_over(d, before, r, true),
    ensures
        d.out_thumbnail@ == c.out_thumbnail@,
        d.out_message@ == c.out_message@,
        text_or_empty(d.out_placeholder) == text_or_empty(c.out_placeholder),
        d.media.mime is Some && d.media.mime->0@ == text_or_empty(c.media.mime),
        c.media.kind is Some ==> d.media.kind == c.media.kind,
        c.media.kind is None ==> d.media.kind == Some(FileKind::Unknown),
        c.media.file_size is Some ==> d.media.file_size == c.media.file_size,
        d.media.extension is Some && d.media.extension->0@ == canonical_ext(
            canonical_ext(text_or_empty(c.media.extension)),
        ),
        c.media.properties is Some ==> d.media.properties is Some && d.media.properties->0@
            == c.media.properties->0@,
{
    assert(c.out_message@.len() == 0 ==> c.out_message@ =~= Seq::empty());
    let m = r.media->0;
    if m.placeholder@.len() == 0 {
        assert(text_or_empty(c.out_placeholder) =~= Seq::empty());
    }
}

/// A status that travels to another tier and back is the same status; a running cook
/// and one whose caller is up to date count as done.
pub proof fn law_status_travels(s: CookStatus)
    ensures
        s == CookStatus::Complete || s == CookStatus::Failed || s == CookStatus::Overloaded || s
            == CookStatus::Intermediate ==> status_of_job(result_status(s)) == s,
        s == CookStatus::Processing || s == CookStatus::Fresh ==> status_of_job(result_status(s))
            == CookStatus::Complete,
{
}

/// A result is cached until its source says, or else for the default time, and never
/// longer than the maximum.
pub proof fn law_cached_until(hints: CacheHints, now: u64, default_ttl: u64, max_ttl: u64)
    ensures
        ({
            let told = match hints.expires_at {
                Some(t) => t as int,
                None => now + default_ttl,
            };
            let at = expiry(Some(hints), now, default_ttl, max_ttl);
            &&& at <= now + max_ttl
            &&& at <= told
            &&& at == told || at == now + max_ttl
        }),
        expiry(None, now, default_ttl, max_ttl) <= now + default_ttl,
        expiry(None, now, default_ttl, max_ttl) <= now + max_ttl,
        expiry(None, now, default_ttl, max_ttl) == now + default_ttl || expiry(
            None,
            now,
            default_ttl,
            max_ttl,
        ) == now + max_ttl,
{
}

/// The placeholder of what failed may be replaced after an hour at the earliest, and
/// not before the source expires; that of what no renderer handles after a day, or
/// when the quota window ends.
pub proof fn law_placeholder_until(
    hints: Option<CacheHints>,
    quota_ttl: Option<u64>,
    now: u64,
)
    requires
        now + 86400 <= u64::MAX,
        quota_ttl is Some ==> now + quota_ttl->0 <= u64::MAX,
    ensures
        ({
            let failed = placeholder_hints(true, hints, quota_ttl, now);
            let told = match hints {
                Some(h) => match h.expires_at {
                    Some(t) => t as int,
                    None => 0,
                },
                None => 0,
            };
            &&& failed.expires_at is Some
            &&& failed.expires_at->0 >= now + 3600
            &&& failed.expires_at->0 >= told
            &&& failed.expires_at->0 == now + 3600 || failed.expires_at->0 == told
            &&& hints is Some ==> failed.etag == hints->0.etag && failed.last_modified
                == hints->0.last_modified
        }),
        ({
            let open = placeholder_hints(false, hints, quota_ttl, now);
            &&& open.expires_at is Some
            &&& quota_ttl is Some ==> open.expires_at->0 == now + quota_ttl->0
            &&& quota_ttl is None ==> open.expires_at->0 == now + 86400
        }),
{
}

/// The tiers of a handoff are tried in ascending order, none below the one at which it
/// starts and none that is not there; tier 3 only for what it can handle.
pub proof fn law_tiers(start: int, has_tier2: bool, has_tier3: bool, handles: bool)
    ensures
        ({
            let list = tiers_from(start, has_tier2, has_tier3, handles);
            &&& forall|t: u8|
                #[trigger] list.contains(t) <==> {
                    &&& start <= t
                    &&& ((t == 2 && has_tier2) || (t == 3 && has_tier3 && handles))
                }
            &&& forall|i: int, j: int| 0 <= i < j < list.len() ==> list[i] < list[j]
        }),
{
    let list = tiers_from(start, has_tier2, has_tier3, handles);
    assert forall|t: u8|
        #[trigger] list.contains(t) <==> {
            &&& start <= t
            &&& ((t == 2 && has_tier2) || (t == 3 && has_tier3 && handles))
        } by {
        if t == 2 && start <= 2 && has_tier2 {
            assert(list[0] == 2);
        }
        if t == 3 && start <= 3 && has_tier3 && handles {
            assert(list[list.len() - 1] == 3);
        }
    }
}

/// A handoff starts where the item is routed; only an image of the lowest tier starts
/// one higher, and only where there is such a tier.
pub proof fn law_start_tier(routed: int, kind: Option<FileKind>, has_tier2: bool)
    ensures
        start_tier(routed, kind, has_tier2) >= routed,
        start_tier(routed, kind, has_tier2) != routed ==> routed == 1 && kind == Some(
            FileKind::Image,
        ) && has_tier2 && start_tier(routed, kind, has_tier2) == 2,
        routed == 1 && kind == Some(FileKind::Image) && has_tier2 ==> start_tier(
            routed,
            kind,
            has_tier2,
        ) == 2,
{
}

/// Behind the shortcuts a cook that is complete is finished, and one with an image is
/// delivered. Of the others, those over their quota are neither rendered nor handed
/// off; the rest is rendered where there is a renderer, and else handed off.
pub proof fn law_behind_shortcut(c: ThumbCook, has_renderer: bool)
    ensures
        ({
            let next = step_behind_shortcut(c, has_renderer);
            &&& c.status == CookStatus::Complete ==> next == NextStep::Finish
            &&& next == NextStep::Deliver <==> c.status != CookStatus::Complete && c.has_image
            &&& next == NextStep::Render || next == NextStep::Handoff ==> !c.render_disabled
                && !c.has_image
            &&& next == NextStep::Render ==> has_renderer
            &&& next == NextStep::Handoff ==> !has_renderer
            &&& c.status != CookStatus::Complete && !c.has_image && !c.render_disabled ==> next
                == if has_renderer {
                NextStep::Render
            } else {
                NextStep::Handoff
            }
        }),
{
}

/// The stable name of a category names its own placeholder.
pub proof fn law_named_placeholder(icons: PlaceholderIcons, kind: FileKind)
    ensures
        icons.named(slug(kind)) == icons.icon(kind),
        icons.named("failed"@) == icons.failed@,
{
    reveal_strlit("image");
    reveal_strlit("video");
    reveal_strlit("audio");
    reveal_strlit("vector");
    reveal_strlit("document");
    reveal_strlit("geometry");
    reveal_strlit("archive");
    reveal_strlit("text");
    reveal_strlit("binary");
    reveal_strlit("unknown");
    reveal_strlit("failed");
    assert("image"@.len() == 5 && "image"@[0] == 'i');
    assert("video"@.len() == 5 && "video"@[0] == 'v');
    assert("audio"@.len() == 5 && "audio"@[0] == 'a');
    assert("vector"@.len() == 6 && "vector"@[0] == 'v');
    assert("document"@.len() == 8 && "document"@[0] == 'd');
    assert("geometry"@.len() == 8 && "geometry"@[0] == 'g');
    assert("archive"@.len() == 7 && "archive"@[0] == 'a');
    assert("text"@.len() == 4 && "text"@[0] == 't');
    assert("binary"@.len() == 6 && "binary"@[0] == 'b');
    assert("unknown"@.len() == 7 && "unknown"@[0] == 'u');
    assert("failed"@.len() == 6 && "failed"@[0] == 'f');
}

/// A finished cook keeps its own thumbnail where it has one. Where it has none it gets
/// the placeholder of the source's category, or where that is unknown the one for
/// failures or for anything else.
pub proof fn law_finished_thumbnail(
    f: ThumbCook,
    c: ThumbCook,
    icons: PlaceholderIcons,
    now: u64,
)
    requires
        is_finished(f, c, icons, now),
    ensures
        c.out_thumbnail@.len() > 0 ==> f.out_thumbnail@ == c.out_thumbnail@ && f.status == c.status,
        c.status == CookStatus::Fresh ==> f.out_thumbnail@ == c.out_thumbnail@,
        c.out_thumbnail@.len() == 0 && c.status != CookStatus::Fresh && c.media.kind is Some ==> {
            &&& f.out_thumbnail@ == icons.icon(c.media.kind->0)
            &&& opt_text(f.out_placeholder) == Some(slug(c.media.kind->0))
            &&& c.status == CookStatus::Failed ==> f.status == CookStatus::Complete
            &&& c.status != CookStatus::Failed ==> f.status == c.status
        },
        c.out_thumbnail@.len() == 0 && c.status == CookStatus::Failed && c.media.kind is None
            ==> f.out_thumbnail@ == icons.failed@ && f.status == CookStatus::Failed,
{
}

/// An expiry is put off at least to a time from now, and never brought forward.
pub proof fn law_min_expiry(expires_at: Option<u64>, now: u64, floor: u64)
    requires
        now + floor <= u64::MAX,
    ensures
        min_expiry(expires_at, now, floor) >= now + floor,
        expires_at is Some ==> min_expiry(expires_at, now, floor) >= expires_at->0,
        min_expiry(expires_at, now, floor) == now + floor || Some(
            min_expiry(expires_at, now, floor),
        ) == expires_at,
{
}

} // verus!
