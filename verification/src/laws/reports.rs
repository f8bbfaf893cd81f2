//! Laws on reports: what is counted, what is said to be wrong, and how figures are
//! shown.
use vstd::prelude::*;

use crate::cache::dsn::{link_check, link_model, scheme_of, LinkModel};
use crate::config::AppConfig;
use crate::diag::{
    issue_texts,
    reports,
    tenths,
    DiagProbes,
    DiagRegistry,
    DiagReport,
    TierStatus,
    ValidationStatus,
};
use crate::dispatch::{FormatEntry, Tier3Registry};
use crate::formats::{enabled_count, kind_count};
use crate::inspect::kind_of_mime;
use crate::laws::texts::{lacks, law_after_last, law_before_first, with_between};
use crate::media::FileKind;
use crate::number::decimal;
use crate::props::image_entries;
use crate::raster::ImageProps;
use crate::result::{ResultSource, ResultStatus, ThumbResult};
use crate::routes::logged_status;
use crate::text::has_prefix;
use crate::tier3::scratch::url_stem;

verus! {

/// Every format is counted in one category.
pub proof fn law_kinds_add_up(list: Seq<FormatEntry>, n: int)
    requires
        0 <= n <= list.len(),
    ensures
        kind_count(list, FileKind::Image, n) + kind_count(list, FileKind::Video, n) + kind_count(
            list,
            FileKind::Audio,
            n,
        ) + kind_count(list, FileKind::Vector, n) + kind_count(list, FileKind::Document, n)
            + kind_count(list, FileKind::Geometry, n) + kind_count(list, FileKind::Archive, n)
            + kind_count(list, FileKind::Text, n) + kind_count(list, FileKind::Binary, n)
            + kind_count(list, FileKind::Unknown, n) == n,
    decreases n,
{
    if n > 0 {
        law_kinds_add_up(list, n - 1);
    }
}

/// Formats that are all of one category are all counted in it.
pub proof fn law_one_kind(list: Seq<FormatEntry>, kind: FileKind, n: int)
    requires
        0 <= n <= list.len(),
        forall|i: int| 0 <= i < n ==> (#[trigger] list[i]).kind == kind,
    ensures
        kind_count(list, kind, n) == n,
    decreases n,
{
    if n > 0 {
        law_one_kind(list, kind, n - 1);
        assert(list[n - 1].kind == kind);
    }
}

/// A format of tier 1 can always be rendered, one of tier 2 where that is there, and
/// one of tier 3 where that is there and handles it; another tier takes none away.
pub proof fn law_more_tiers_more_formats(
    list: Seq<FormatEntry>,
    tier2: bool,
    tier3: bool,
    registry: Tier3Registry,
    n: int,
)
    requires
        0 <= n <= list.len(),
    ensures
        enabled_count(list, tier2, tier3, registry, n) <= enabled_count(
            list,
            true,
            tier3,
            registry,
            n,
        ),
        enabled_count(list, tier2, tier3, registry, n) <= enabled_count(
            list,
            tier2,
            true,
            registry,
            n,
        ),
        enabled_count(list, tier2, tier3, registry, n) <= n,
        (forall|i: int| 0 <= i < n ==> (#[trigger] list[i])@.tier == 1) ==> enabled_count(
            list,
            tier2,
            tier3,
            registry,
            n,
        ) == n,
        (forall|i: int| 0 <= i < n ==> (#[trigger] list[i])@.tier == 2) ==> enabled_count(
            list,
            tier2,
            tier3,
            registry,
            n,
        ) == if tier2 {
            n
        } else {
            0
        },
    decreases n,
{
    if n > 0 {
        law_more_tiers_more_formats(list, tier2, tier3, registry, n - 1);
        if forall|i: int| 0 <= i < n ==> (#[trigger] list[i])@.tier == 1 {
            assert(list[n - 1]@.tier == 1);
        }
        if forall|i: int| 0 <= i < n ==> (#[trigger] list[i])@.tier == 2 {
            assert(list[n - 1]@.tier == 2);
        }
    }
}

/// A server is healthy where its port is free and no check failed, and where one
/// failed it is not.
pub proof fn law_healthy(r: DiagReport, cfg: AppConfig, p: DiagProbes, reg: DiagRegistry)
    requires
        reports(r, cfg, p, reg),
    ensures
        !p.port_available ==> !r.healthy,
        r.tier2_validation.status == ValidationStatus::Error ==> !r.healthy,
        r.tier3_validation.status == ValidationStatus::Error ==> !r.healthy,
        r.cache_validation.status == ValidationStatus::Error ==> !r.healthy,
        r.trace_validation.status == ValidationStatus::Error ==> !r.healthy,
        r.handshake_validation.status == ValidationStatus::Error ==> !r.healthy,
        p.port_available && r.tier2_validation.status != ValidationStatus::Error
            && r.tier3_validation.status != ValidationStatus::Error && r.cache_validation.status
            != ValidationStatus::Error && r.trace_validation.status != ValidationStatus::Error
            && r.handshake_validation.status != ValidationStatus::Error && r.cache_file_check is None
            ==> r.healthy,
{
}

/// Nothing is reported as an issue where nothing is wrong, and something is where
/// something is.
pub proof fn law_issues(r: DiagReport)
    ensures
        issue_texts(r).len() == 0 <==> {
            &&& r.tier2 != TierStatus::Error
            &&& r.tier3 != TierStatus::Error
            &&& r.tier2_validation.status != ValidationStatus::Error
            &&& r.tier3_validation.status != ValidationStatus::Error
            &&& r.cache_validation.status != ValidationStatus::Error
            &&& r.trace_validation.status != ValidationStatus::Error
            &&& r.handshake_validation.status != ValidationStatus::Error
            &&& r.cache_file_check is Some ==> r.cache_file_check->0.writable
        },
{
}

/// Tenths of a unit are the nearest to the number of bytes.
pub proof fn law_tenths(b: int, unit: int)
    requires
        b >= 0,
        unit > 0,
    ensures
        2 * (unit * tenths(b, unit) - 10 * b) <= unit,
        2 * (10 * b - unit * tenths(b, unit)) <= unit,
{
    let n = 10 * b;
    let q = n / unit;
    let rest = n % unit;
    assert(n == unit * q + rest && 0 <= rest < unit) by (nonlinear_arith)
        requires
            q == n / unit,
            rest == n % unit,
            unit > 0,
    ;
    assert(unit * (q + 1) == unit * q + unit) by (nonlinear_arith);
}

/// The check of a link says what opening it would: the same links are refused, and the
/// database file is the one that would be opened. Of the cloud nothing is checked.
pub proof fn law_check_agrees(spec: Seq<char>)
    requires
        scheme_of(spec).0 != "cloud"@,
    ensures
        link_check(spec) is Err <==> link_model(spec) is Refused,
        match link_check(spec) {
            Ok(Some(path)) => match link_model(spec) {
                LinkModel::Sqlite(p, _) => p == path,
                _ => false,
            },
            Ok(None) => !(link_model(spec) is Sqlite),
            Err(_) => true,
        },
{
    let (scheme, rest) = scheme_of(spec);
    if rest.len() == 0 {
        assert(rest =~= Seq::empty());
        assert(!rest.contains(','));
    }
}

/// The first word of a MIME type gives the category; drawings are told from pictures
/// by their extension.
pub proof fn law_kind_of_mime(sub: Seq<char>, ext: Seq<char>)
    ensures
        ext != "svg"@ ==> kind_of_mime("image/"@ + sub, ext) == FileKind::Image,
        kind_of_mime("image/"@ + sub, "svg"@) == FileKind::Vector,
        kind_of_mime("video/"@ + sub, ext) == FileKind::Video,
        kind_of_mime("audio/"@ + sub, ext) == FileKind::Audio,
{
    reveal_strlit("image/");
    reveal_strlit("video/");
    reveal_strlit("audio/");
    let i = "image/"@;
    let v = "video/"@;
    let a = "audio/"@;
    assert(i.len() == 6 && v.len() == 6 && a.len() == 6);
    assert(i[0] == 'i' && v[0] == 'v' && a[0] == 'a');
    assert((i + sub).subrange(0, 6) =~= i);
    assert((v + sub).subrange(0, 6) =~= v);
    assert((a + sub).subrange(0, 6) =~= a);
    assert(has_prefix(i + sub, i));
    assert((v + sub).subrange(0, 6)[0] == 'v');
    assert((a + sub).subrange(0, 6)[0] == 'a');
}

/// An image is reported with its size, and with depth, alpha and losslessness as far
/// as they are known.
pub proof fn law_image_entries(p: ImageProps)
    ensures
        ({
            let m = image_entries(p);
            &&& m.dom().contains("width"@) && m["width"@] == decimal(p.width as nat)
            &&& m.dom().contains("height"@) && m["height"@] == decimal(p.height as nat)
            &&& m.dom().contains("bpp"@) <==> p.bpp is Some
            &&& p.bpp is Some ==> m["bpp"@] == decimal(p.bpp->0 as nat)
            &&& m.dom().contains("alpha"@) <==> p.alpha is Some
            &&& p.alpha is Some ==> m["alpha"@] == if p.alpha->0 {
                "true"@
            } else {
                "false"@
            }
            &&& m.dom().contains("lossless"@) <==> p.lossless is Some
            &&& p.lossless is Some ==> m["lossless"@] == if p.lossless->0 {
                "true"@
            } else {
                "false"@
            }
        }),
{
    reveal_strlit("width");
    reveal_strlit("height");
    reveal_strlit("bpp");
    reveal_strlit("alpha");
    reveal_strlit("lossless");
    assert("width"@.len() == 5 && "width"@[0] == 'w');
    assert("height"@.len() == 6);
    assert("bpp"@.len() == 3);
    assert("alpha"@.len() == 5 && "alpha"@[0] == 'a');
    assert("lossless"@.len() == 8);
}

/// A result is logged with what its source answered. Without an answer it is logged as
/// not modified where it is, as a success only where it is one, and else as a failure.
pub proof fn law_logged_status(r: ThumbResult)
    ensures
        r.http_status is Some ==> logged_status(r) == r.http_status->0,
        r.http_status is None && r.source == Some(ResultSource::NotModified) ==> logged_status(r)
            == 304,
        r.http_status is None && r.source != Some(ResultSource::NotModified) ==> {
            &&& logged_status(r) == 200 <==> r.status == ResultStatus::Success
            &&& logged_status(r) == 503 <==> r.status == ResultStatus::Overloaded
            &&& logged_status(r) == 500 <==> r.status == ResultStatus::Failed
            &&& logged_status(r) == 422 <==> r.status == ResultStatus::BatchLimit
            &&& logged_status(r) == 102 <==> r.status == ResultStatus::Intermediate
        },
{
}

/// A download is named after the last name on its path, without the query.
pub proof fn law_download_name(front: Seq<char>, name: Seq<char>, query: Seq<char>)
    requires
        lacks(name, '/') && lacks(name, '?'),
        lacks(query, '/'),
    ensures
        url_stem(with_between(front, '/', with_between(name, '?', query))) == name,
        url_stem(with_between(front, '/', name)) == name,
{
    let last = with_between(name, '?', query);
    assert(lacks(last, '/')) by {
        assert forall|i: int| 0 <= i < last.len() implies #[trigger] last[i] != '/' by {
            if i < name.len() {
                assert(last[i] == name[i]);
            } else if i > name.len() {
                assert(last[i] == query[i - name.len() - 1]);
            }
        }
    }
    law_after_last(front, '/', last);
    law_after_last(front, '/', name);
    law_before_first(name, '?', query);
}

} // verus!
