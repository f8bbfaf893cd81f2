//! Laws on what is found out about the surroundings: environment variables,
//! release files, tools and other servers.
use vstd::prelude::*;

use crate::config::{configured, first_refusal, AppConfig, EnvVars, Variable};
use crate::cook::{CacheHints, SourceIdentity, ThumbCook};
use crate::diag::{
    container_name,
    first_value,
    image_id,
    last_value,
    line_value,
    nonblank,
    pretty_name,
    unquoted_start,
    ContainerClues,
};
use crate::fetch::{accepted, asks_by, ConnectAction, ResponseHead};
use crate::laws::texts::{
    blank,
    lacks,
    law_parts_of_list,
    law_strip_end,
    law_trimmed,
    listed,
    tight,
};
use crate::pipeline::{request_hints, source_identity};
use crate::text::{has_prefix, opt_text};
use crate::tier3::renderer::probed_dims;
use crate::tier3::scratch::{fits, sum_of};

verus! {

/// So many quotes.
pub open spec fn quotes(n: nat) -> Seq<char> {
    Seq::new(n, |i: int| '"')
}

/// Quotes at the start of a text are taken off.
proof fn lemma_unquoted_start(n: nat, s: Seq<char>)
    requires
        s.len() > 0,
        s[0] != '"',
    ensures
        unquoted_start(quotes(n) + s) == s,
    decreases n,
{
    let t = quotes(n) + s;
    if n > 0 {
        assert(t[0] == '"');
        assert(t.subrange(1, t.len() as int) =~= quotes((n - 1) as nat) + s);
        lemma_unquoted_start((n - 1) as nat, s);
    } else {
        assert(t =~= s);
    }
}

/// The value of a release file's line is what was written behind the name, in
/// quotes or not, whichever way the line ends.
pub proof fn law_line_value(name: Seq<char>, m: Seq<char>, n: nat, line_end: bool)
    requires
        tight(m),
        m[0] != '"',
        m[m.len() - 1] != '"',
        m[m.len() - 1] != '\r',
    ensures
        line_value(
            name + (quotes(n) + m + quotes(n)) + if line_end {
                seq!['\r']
            } else {
                Seq::empty()
            },
            name,
        ) == Some(m),
{
    let body = quotes(n) + m + quotes(n);
    let line = name + body;
    let raw = line + if line_end {
        seq!['\r']
    } else {
        Seq::empty()
    };
    assert(line[line.len() - 1] != '\r') by {
        if n > 0 {
            assert(line[line.len() - 1] == '"');
        } else {
            assert(line[line.len() - 1] == m[m.len() - 1]);
        }
    }
    if line_end {
        assert(raw.subrange(0, raw.len() - 1) =~= line);
    } else {
        assert(raw =~= line);
    }
    assert(line.subrange(0, name.len() as int) =~= name);
    assert(line.subrange(name.len() as int, line.len() as int) =~= body);
    let inner = m + quotes(n);
    assert(body =~= quotes(n) + inner);
    assert(inner[0] == m[0]);
    lemma_unquoted_start(n, inner);
    law_strip_end(m, '"', n);
    assert(m + Seq::new(n, |i: int| '"') =~= inner);
    law_trimmed(Seq::empty(), m, Seq::empty());
    assert(Seq::<char>::empty() + m + Seq::empty() =~= m);
}

/// The last of several values.
proof fn lemma_last_value(v: Seq<Seq<char>>, name: Seq<char>, k: int, n: int, x: Seq<char>)
    requires
        0 <= k < n <= v.len(),
        line_value(v[k], name) == Some(x),
        forall|i: int| k < i < n ==> line_value(#[trigger] v[i], name) is None,
    ensures
        last_value(v, name, n) == Some(x),
    decreases n,
{
    if k < n - 1 {
        assert(line_value(v[n - 1], name) is None);
        lemma_last_value(v, name, k, n - 1, x);
    }
}

/// The first of several values that is not empty.
proof fn lemma_first_value(v: Seq<Seq<char>>, name: Seq<char>, i: int, k: int, x: Seq<char>)
    requires
        0 <= i <= k < v.len(),
        line_value(v[k], name) == Some(x),
        x.len() > 0,
        forall|j: int| i <= j < k ==> (match line_value(#[trigger] v[j], name) {
            Some(y) => y.len() == 0,
            None => true,
        }),
    ensures
        first_value(v, name, i) == Some(x),
    decreases k - i,
{
    if i < k {
        assert(match line_value(v[i], name) {
            Some(y) => y.len() == 0,
            None => true,
        });
        lemma_first_value(v, name, i + 1, k, x);
    }
}

/// Where several lines of a release file name the system, the last one counts.
pub proof fn law_last_name_counts(v: Seq<Seq<char>>, k: int, x: Seq<char>)
    requires
        0 <= k < v.len(),
        forall|i: int| 0 <= i < v.len() ==> lacks(#[trigger] v[i], '\n'),
        line_value(v[k], "PRETTY_NAME="@) == Some(x),
        x.len() > 0,
        forall|i: int| k < i < v.len() ==> line_value(#[trigger] v[i], "PRETTY_NAME="@) is None,
    ensures
        pretty_name(Some(listed(v, '\n'))) == Some(x),
{
    law_parts_of_list(v, '\n');
    lemma_last_value(v, "PRETTY_NAME="@, k, v.len() as int, x);
}

/// Of several lines that name the image, the first that names any counts.
pub proof fn law_first_image_counts(v: Seq<Seq<char>>, k: int, x: Seq<char>)
    requires
        0 <= k < v.len(),
        forall|i: int| 0 <= i < v.len() ==> lacks(#[trigger] v[i], '\n'),
        line_value(v[k], "IMAGE_ID="@) == Some(x),
        x.len() > 0,
        forall|j: int| 0 <= j < k ==> (match line_value(#[trigger] v[j], "IMAGE_ID="@) {
            Some(y) => y.len() == 0,
            None => true,
        }),
    ensures
        image_id(Some(listed(v, '\n'))) == Some(x),
{
    law_parts_of_list(v, '\n');
    lemma_first_value(v, "IMAGE_ID="@, 0, k, x);
}

/// The operator's label goes before everything else, whatever else is found; it
/// counts without the white space round it. Without a label, a release file of
/// the image or a sign of a container there is no container.
pub proof fn law_container(c: ContainerClues, l: Seq<char>, m: Seq<char>, r: Seq<char>)
    requires
        blank(l),
        blank(r),
        tight(m),
    ensures
        opt_text(c.label) == Some(l + m + r) ==> container_name(c) == Some(m),
        nonblank(opt_text(c.label)) is None && opt_text(c.release) == Some(l + m + r)
            ==> container_name(c) == Some(m),
        c.label is None && c.release is None && !c.dockerenv && !c.containerenv && c.cgroup is None
            ==> container_name(c) is None,
        c.dockerenv || c.containerenv ==> container_name(c) is Some,
{
    law_trimmed(l, m, r);
}

/// What is not set has its usual value.
pub proof fn law_usual_settings(c: AppConfig, vars: EnvVars)
    requires
        configured(c, vars),
    ensures
        vars.port is None ==> c.port == 3114,
        vars.allow_local is None ==> !c.allow_local,
        vars.cache_max_ttl is None ==> c.cache_max_ttl_secs == 7 * 24 * 3600,
        vars.cache_default_ttl is None ==> c.cache_default_ttl_secs == 3600,
        vars.server is None ==> c.server is None,
        vars.handshake is None ==> c.handshake is None,
        vars.tier2 is None ==> c.tier2.url is None,
        vars.tier3 is None ==> c.tier3.url is None,
        c.failure_ttl == 5,
        c.backoff_default == 60,
        c.backoff_ceiling == 3600,
{
}

/// What is set is used: each variable for its own setting.
pub proof fn law_own_settings(
    c: AppConfig,
    vars: EnvVars,
    l: Seq<char>,
    m: Seq<char>,
    r: Seq<char>,
)
    requires
        configured(c, vars),
        blank(l),
        blank(r),
        tight(m),
    ensures
        opt_text(vars.server) == Some(l + m + r) ==> opt_text(c.server) == Some(m),
        opt_text(vars.handshake) == Some(l + m + r) ==> opt_text(c.handshake) == Some(m),
        opt_text(vars.scratch) == Some(l + m + r) ==> c.scratch_dir@ == m,
        opt_text(c.cache_url) == opt_text(vars.cache),
        opt_text(c.trace_url) == opt_text(vars.trace),
{
    law_trimmed(l, m, r);
}

/// A configuration agrees with variables only if none of them is refused.
pub proof fn law_refused_or_configured(c: AppConfig, vars: EnvVars)
    requires
        configured(c, vars),
    ensures
        first_refusal(vars) is None,
{
}

/// A refusal names the variable and shows what it holds, and a refused port goes
/// before all else.
pub proof fn law_refusal_shows_value(vars: EnvVars)
    ensures
        match first_refusal(vars) {
            Some((Variable::Port, s, e)) => opt_text(vars.port) == Some(s) && e is Port,
            Some((Variable::AllowLocal, s, e)) => opt_text(vars.allow_local) == Some(s)
                && e is Boolean,
            Some((_, _, e)) => e is Number,
            None => true,
        },
{
}

/// The first stream that is listed gives the dimensions, and no other; one
/// without a width or a height gives none.
pub proof fn law_first_stream(
    w: u64,
    h: u64,
    rest: Seq<(Option<u64>, Option<u64>)>,
)
    requires
        0 < w <= u32::MAX,
        0 < h <= u32::MAX,
    ensures
        probed_dims(Some(seq![(Some(w), Some(h))] + rest)) == Ok::<(u32, u32), Seq<char>>(
            (w as u32, h as u32),
        ),
        probed_dims(Some(seq![(Some(w), None)] + rest)) is Err,
        probed_dims(Some(seq![(None, Some(h))] + rest)) is Err,
        probed_dims(Some(Seq::empty())) is Err,
        probed_dims(None) is Err,
{
    assert((seq![(Some(w), Some(h))] + rest)[0] == (Some(w), Some(h)));
    assert((seq![(Some(w), None::<u64>)] + rest)[0] == (Some(w), None::<u64>));
    assert((seq![(None::<u64>, Some(h))] + rest)[0] == (None::<u64>, Some(h)));
}

/// A source is cached under its canonical URL where it has one, or else under
/// that behind its redirects, so that all ways to it lead to one entry.
pub proof fn law_cached_as(
    a: SourceIdentity,
    b: SourceIdentity,
    c: (Option<Seq<char>>, Option<Seq<char>>),
    urls: (Seq<char>, Seq<char>),
)
    ensures
        a.canonical_url is Some ==> source_identity(a, c.0, urls.0) == a.canonical_url->0@,
        a.canonical_url is Some && opt_text(a.canonical_url) == opt_text(b.canonical_url)
            ==> source_identity(a, c.0, urls.0) == source_identity(b, c.1, urls.1),
        a.canonical_url is None && b.canonical_url is None && a.final_url is Some && opt_text(
            a.final_url,
        ) == opt_text(b.final_url) ==> source_identity(a, c.0, urls.0) == source_identity(
            b,
            c.1,
            urls.1,
        ),
        a.canonical_url is None && a.final_url is None && c.0 is None ==> source_identity(
            a,
            c.0,
            urls.0,
        ) == urls.0,
{
}

/// A source is asked for changes since the result that is kept, even where the
/// caller has one too; by its tag where it has one, even where it has a date.
pub proof fn law_asked_for_changes(
    c: ThumbCook,
    hints: CacheHints,
    header: Option<(String, String)>,
)
    requires
        asks_by(hints, header),
    ensures
        c.stale is Some ==> request_hints(c) == c.stale->0.hints,
        c.stale is None ==> request_hints(c) == c.input.cache,
        hints.etag is Some ==> header is Some && (match header {
            Some(h) => h.0@ == "If-None-Match"@ && h.1@ == hints.etag->0@,
            None => false,
        }),
        hints.etag is None && hints.last_modified is Some ==> (match header {
            Some(h) => h.0@ == "If-Modified-Since"@ && h.1@ == hints.last_modified->0@,
            None => false,
        }),
        hints.etag is None && hints.last_modified is None ==> header is None,
{
}

/// A response that says to be a page fails, whatever parameters follow; every
/// other is kept open. Both identify the source.
pub proof fn law_pages_are_no_media(
    c: ThumbCook,
    head: ResponseHead,
    r: ConnectAction,
    f: ThumbCook,
    rest: Seq<char>,
)
    requires
        accepted(c, head, r, f),
    ensures
        f.src.final_url == Some(head.url),
        f.src.canonical_url == head.canonical_url,
        f.src.cache_hints == head.hints,
        head.headers@.dom().contains("content-type"@) && head.headers@["content-type"@]
            == "text/html"@ + rest ==> r is Reject && f.status is Failed && f.http_open
            == c.http_open,
        !head.headers@.dom().contains("content-type"@) ==> r is Install && f.http_open && f.status
            == c.status,
        head.headers@.dom().contains("content-type"@) && !has_prefix(
            head.headers@["content-type"@],
            "text/html"@,
        ) ==> r is Install && f.http_open && f.status == c.status,
{
    let t = "text/html"@ + rest;
    assert(t.subrange(0, "text/html"@.len() as int) =~= "text/html"@);
}

/// A scratch directory that takes only what fits never holds more than its
/// limit; what is too much stays too much with more in it.
pub proof fn law_limit_kept(max: u64, current: u64, needed: u64, more: u64)
    requires
        max > 0,
        fits(max, current, needed),
    ensures
        sum_of(current, needed) == current + needed,
        sum_of(current, needed) <= max,
        more <= needed ==> fits(max, current, more),
        more > max - current ==> !fits(max, current, more),
{
}

} // verus!
