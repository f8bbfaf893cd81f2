//! Laws on what is shown and reported: lines, sizes, verdicts and results that
//! were taken over.
use vstd::prelude::*;

use crate::cache::store::{cacheable, size_sum};
use crate::checks::{passes, schema_verdict, target_verdict, TargetProbe};
use crate::connect::auth_token;
use crate::cook::{handoff_applied, CacheFind, HandoffResponse, ThumbCook};
use crate::decode::Picture;
use crate::diag::{
    bytes_text,
    handshake_checked,
    tier_reported,
    DiagEntry,
    DiagReport,
    TierStatus,
    Validation,
};
use crate::dispatch::{FormatEntry, Tier3Registry};
use crate::formats::{
    enabled,
    format_line,
    heading_line,
    kind_count,
    starts_kind,
    table_lines,
};
use crate::handoff::shared_key;
use crate::number::decimal;
use crate::pipeline::served_from_cache;
use crate::pretty::{entry_line, entry_lines, padded_to, report_lines};
use crate::renderer::{output_applied, RenderOutput};
use crate::result::ThumbResult;
use crate::text::{lists_text, opt_text};
use crate::tier2::jpeg::{is_dct_image, DctImage, JpegFormat};
use crate::tier2::renderer::{crate_ready, CrateRender};
use crate::tier3::env_check::BackendView;
use crate::tier3::report::usd_status;

verus! {

/// A padded text starts with the text, is as wide as its column unless the text
/// is wider, and holds nothing but spaces behind the text.
pub proof fn law_padded(s: Seq<char>, n: int)
    ensures
        padded_to(s, n).len() == (if s.len() >= n {
            s.len() as int
        } else {
            n
        }),
        forall|i: int| 0 <= i < s.len() ==> #[trigger] padded_to(s, n)[i] == s[i],
        forall|i: int| s.len() <= i < n ==> #[trigger] padded_to(s, n)[i] == ' ',
    decreases n - s.len(),
{
    if s.len() < n {
        let t = s.push(' ');
        law_padded(t, n);
        assert(padded_to(s, n) == padded_to(t, n));
        assert forall|i: int| 0 <= i < s.len() implies #[trigger] padded_to(s, n)[i] == s[i] by {
            assert(padded_to(t, n)[i] == t[i]);
        }
        assert forall|i: int| s.len() <= i < n implies #[trigger] padded_to(s, n)[i] == ' ' by {
            if i == s.len() {
                assert(padded_to(t, n)[i] == t[i]);
            }
        }
    }
}

/// Whole units are shown as such, in the largest unit that goes in.
pub proof fn law_bytes_in_words(k: nat)
    requires
        0 < k < 1024,
    ensures
        bytes_text(k as int) == decimal(k) + " B"@,
        bytes_text(1024 * k as int) == decimal(k) + "."@ + decimal(0) + " KiB"@,
        bytes_text(1024 * 1024 * k as int) == decimal(k) + "."@ + decimal(0) + " MiB"@,
        bytes_text(1024 * 1024 * 1024 * k as int) == decimal(k) + "."@ + decimal(0) + " GiB"@,
{
    assert(10 * (1024 * k as int) / 1024 == 10 * k && 10 * (1024 * k as int) % 1024 == 0);
    assert(10 * (1048576 * k as int) / 1048576 == 10 * k && 10 * (1048576 * k as int) % 1048576 == 0);
    assert(10 * (1073741824 * k as int) / 1073741824 == 10 * k && 10 * (1073741824 * k as int) % 1073741824 == 0);
    assert(10 * k / 10 == k && 10 * k % 10 == 0);
}

/// Every format has its line in the table, and every category its heading with
/// the number of its formats.
pub proof fn law_all_formats_shown(
    list: Seq<FormatEntry>,
    tier2: bool,
    tier3: bool,
    registry: Tier3Registry,
    n: int,
    i: int,
)
    requires
        0 <= i < n <= list.len(),
    ensures
        table_lines(list, tier2, tier3, registry, n).contains(
            format_line(list[i]@, enabled(list[i]@, tier2, tier3, registry)),
        ),
        starts_kind(list, i) ==> table_lines(list, tier2, tier3, registry, n).contains(
            heading_line(list[i].kind, kind_count(list, list[i].kind, list.len() as int)),
        ),
    decreases n,
{
    let line = format_line(list[i]@, enabled(list[i]@, tier2, tier3, registry));
    let heading = heading_line(list[i].kind, kind_count(list, list[i].kind, list.len() as int));
    let all = table_lines(list, tier2, tier3, registry, n);
    let above = table_lines(list, tier2, tier3, registry, n - 1);
    assert forall|k: int| 0 <= k < above.len() implies above[k] == all[k] by {}
    if i == n - 1 {
        assert(all[all.len() - 1] == line);
        if starts_kind(list, i) {
            assert(all[all.len() - 2] == heading);
        }
    } else {
        law_all_formats_shown(list, tier2, tier3, registry, n - 1, i);
        let k = choose|k: int| 0 <= k < above.len() && above[k] == line;
        assert(all[k] == line);
        if starts_kind(list, i) {
            let k = choose|k: int| 0 <= k < above.len() && above[k] == heading;
            assert(all[k] == heading);
        }
    }
}

/// Every entry of a section has a line of its own, in order.
pub proof fn law_all_entries_shown(v: Seq<DiagEntry>, n: int)
    requires
        0 <= n <= v.len(),
    ensures
        entry_lines(v, n).len() == n,
        forall|i: int| 0 <= i < n ==> #[trigger] entry_lines(v, n)[i] == entry_line(v[i]),
    decreases n,
{
    if n > 0 {
        law_all_entries_shown(v, n - 1);
        assert forall|i: int| 0 <= i < n implies #[trigger] entry_lines(v, n)[i] == entry_line(
            v[i],
        ) by {
            if i < n - 1 {
                assert(entry_lines(v, n - 1)[i] == entry_line(v[i]));
            }
        }
    }
}

/// The last line of a report tells whether all is well.
pub proof fn law_overall_line(r: DiagReport)
    ensures
        report_lines(r).len() > 0,
        report_lines(r)[report_lines(r).len() - 1] == (if r.healthy {
            "Overall: OK \u{2713}"@
        } else {
            "Overall: DEGRADED \u{2717}"@
        }),
{
}

/// A cache database passes if it is intact and has all columns, whatever else
/// it has.
pub proof fn law_schema_passes(v: Validation, integrity: Seq<char>, columns: Seq<String>)
    requires
        schema_verdict(v, integrity, columns),
    ensures
        passes(v) <==> {
            &&& integrity == "ok"@
            &&& lists_text(columns, "cache_key"@)
            &&& lists_text(columns, "value"@)
            &&& lists_text(columns, "size_bytes"@)
            &&& lists_text(columns, "last_accessed_at"@)
            &&& lists_text(columns, "access_count"@)
            &&& lists_text(columns, "render_cost"@)
            &&& lists_text(columns, "expires_at"@)
        },
{
    reveal_with_fuel(crate::checks::lacking, 8);
}

/// A handoff target passes if it has headers and was reached; one without headers
/// is only warned of.
pub proof fn law_target_passes(v: Validation, has_headers: bool, p: TargetProbe)
    requires
        target_verdict(v, has_headers, p),
    ensures
        passes(v) <==> has_headers && p is Reached,
        v.status is Warn <==> !has_headers,
{
}

/// A handshake that looks like an auth token is an error; any other passes.
pub proof fn law_handshake(h: Seq<char>, v: Validation)
    requires
        handshake_checked(Some(h), v),
    ensures
        v.status is Error <==> auth_token(h),
        !auth_token(h) ==> passes(v),
{
}

/// A tier that is built in is not handed off, and one that is neither built in
/// nor has a target is missing.
pub proof fn law_tier_reported(
    builtin: bool,
    url: Option<String>,
    probe: Validation,
    status: TierStatus,
    handoff: Option<String>,
    v: Validation,
)
    requires
        tier_reported(builtin, url, probe, status, handoff, v),
    ensures
        status is Builtin <==> builtin,
        status is Handoff <==> !builtin && url is Some,
        status is Missing <==> !builtin && url is None,
        handoff is Some <==> status is Handoff,
        handoff is Some ==> handoff == url && v == probe,
{
}

/// USD formats are there if the renderer, Python and its USD package all are.
pub proof fn law_usd_needs_all(env: Map<Seq<char>, BackendView>)
    ensures
        !env.dom().contains("f3d"@) ==> usd_status(env).0 == "missing"@,
        !env.dom().contains("python3"@) ==> usd_status(env).0 == "missing"@,
        env.dom().contains("f3d"@) && !env["f3d"@].available ==> usd_status(env).0 == "missing"@,
        env.dom().contains("python3"@) && env["python3"@].details is None ==> usd_status(env).0
            == "missing"@,
{
}

/// An image of samples is there if there are enough of them and they are of 8
/// bits; it tells the size of its source, not its own.
pub proof fn law_reduced_image(
    r: Option<DctImage>,
    info: (u16, u16, JpegFormat),
    scaled: (u16, u16, Seq<u8>),
)
    requires
        is_dct_image(r, info, scaled),
        info.2 is Rgb24,
    ensures
        r is Some <==> scaled.2.len() >= scaled.0 * scaled.1 * 3,
        r is Some ==> r->0.data@.len() == scaled.0 * scaled.1 * 3,
        r is Some ==> forall|k: int|
            0 <= k < r->0.data@.len() ==> #[trigger] r->0.data@[k] == scaled.2[k],
        r is Some ==> r->0.src_w == info.0 && r->0.src_h == info.1 && r->0.depth == 24,
{
    assert(0 <= scaled.0 * scaled.1) by (nonlinear_arith)
        requires
            0 <= scaled.0,
            0 <= scaled.1,
    ;
}

/// A picture that lies on its side is shown upright, and reported with the sides
/// that it was stored with.
pub proof fn law_upright_render(r: CrateRender, p: Picture, orientation: u8)
    requires
        crate_ready(Some(r), Some(p), orientation),
    ensures
        r is Ready,
        5 <= orientation <= 8 ==> (match r {
            CrateRender::Ready { image, .. } => image@.width == p.height && image@.height
                == p.width,
            _ => false,
        }),
        orientation <= 4 ==> (match r {
            CrateRender::Ready { image, .. } => image@.width == p.width && image@.height
                == p.height,
            _ => false,
        }),
{
}

/// What a higher tier read counts beside what was read here; its thumbnail is
/// shown, and the request stays what it was.
pub proof fn law_handoff_adds_up(
    c: ThumbCook,
    before: ThumbCook,
    remote: HandoffResponse,
    tier: u8,
    local_bytes: u64,
)
    requires
        handoff_applied(c, before, remote, tier, local_bytes),
    ensures
        c.out_download_bytes >= local_bytes,
        c.out_download_bytes >= remote.result.download_size,
        local_bytes + remote.result.download_size <= u64::MAX ==> c.out_download_bytes
            == local_bytes + remote.result.download_size,
        remote.result.media is Some ==> c.out_thumbnail == remote.result.media->0.thumbnail,
        c.input == before.input,
        c.src == before.src,
{
}

/// A cook that is served from a cache is complete, with the cached thumbnail; it
/// names the backend, and holds no connection.
pub proof fn law_served_from_cache(c: ThumbCook, before: ThumbCook, find: CacheFind, canonical: bool)
    requires
        served_from_cache(c, before, find, canonical),
    ensures
        c.status is Complete,
        find.result.media is Some ==> c.out_thumbnail == find.result.media->0.thumbnail,
        c.cache_hit == Some(find.backend),
        c.src.cache_hints == find.hints,
        c.src.cache_key == before.src.cache_key,
        !c.http_open,
        c.input == before.input,
{
}

/// A renderer's properties join those that were known: a new one goes before an
/// old one of the same name, and all others stay.
pub proof fn law_properties_join(
    before: ThumbCook,
    after: ThumbCook,
    out: RenderOutput,
    name: Seq<char>,
)
    requires
        output_applied(before, after, out),
    ensures
        after.has_image,
        out.properties is None ==> after.media.properties == before.media.properties,
        out.properties is Some && out.properties->0@.dom().contains(name)
            ==> after.media.properties is Some && after.media.properties->0@.dom().contains(name)
            && after.media.properties->0@[name] == out.properties->0@[name],
        out.properties is Some && !out.properties->0@.dom().contains(name)
            && before.media.properties is Some && before.media.properties->0@.dom().contains(name)
            ==> after.media.properties is Some && after.media.properties->0@.dom().contains(name)
            && after.media.properties->0@[name] == before.media.properties->0@[name],
        after.media.mime == before.media.mime,
        after.media.kind == before.media.kind,
{
}

/// Two cooks of one source under one cache key share their handoff, whatever
/// their URLs.
pub proof fn law_handoff_shared(a: ThumbCook, b: ThumbCook)
    requires
        a.src.cache_key is Some,
        opt_text(a.src.cache_key) == opt_text(b.src.cache_key),
    ensures
        shared_key(a) == shared_key(b),
        shared_key(a) == a.src.cache_key->0@,
{
}

/// The sum of sizes does not depend on how they are grouped.
pub proof fn law_size_sum(a: Seq<u64>, b: Seq<u64>)
    ensures
        size_sum(a + b, (a.len() + b.len()) as int) == size_sum(a, a.len() as int) + size_sum(
            b,
            b.len() as int,
        ),
    decreases b.len(),
{
    let all = a + b;
    if b.len() == 0 {
        assert(all =~= a);
    } else {
        let c = b.subrange(0, b.len() - 1);
        law_size_sum(a, c);
        lemma_size_sum(b, c, c.len() as int);
        lemma_size_sum(all, a + c, (a.len() + c.len()) as int);
        assert(all[all.len() - 1] == b[b.len() - 1]);
    }
}

/// A sum depends on the sizes that are summed alone.
proof fn lemma_size_sum(a: Seq<u64>, b: Seq<u64>, n: int)
    requires
        n <= a.len(),
        n <= b.len(),
        forall|i: int| 0 <= i < n ==> a[i] == b[i],
    ensures
        size_sum(a, n) == size_sum(b, n),
    decreases n,
{
    if n > 0 {
        lemma_size_sum(a, b, n - 1);
    }
}

/// A result belongs into a durable cache only if it carries a token.
pub proof fn law_cacheable(r: ThumbResult)
    ensures
        r.media is None ==> !cacheable(r),
        r.media is Some ==> (cacheable(r) <==> r.media->0.cache@ != Seq::<char>::empty()),
{
    if r.media is Some && r.media->0.cache@.len() == 0 {
        assert(r.media->0.cache@ =~= Seq::empty());
    }
}

} // verus!
