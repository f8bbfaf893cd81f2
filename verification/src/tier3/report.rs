//! What tier 3 adds to a diagnostic report: which formats it supports, and
//! which of its tools are there.
use vstd::prelude::*;

use crate::diag::{register_section, DiagEntry, DiagRegistry, DiagSection};
use crate::dispatch::{FormatEntry, FormatRow};
use crate::number::{decimal, decimal_of};
use crate::pretty::{pad_to, padded_to};
use crate::text::{
    contains,
    holds,
    join,
    join2,
    join3,
    joined,
    opt_text,
    owned,
    push_text,
    same,
    texts,
};
use crate::tier3::env_check::{
    available_in,
    find_handler,
    handler_for,
    BackendView,
    EnvReport,
    HandlerDecl,
};

verus! {

/// A diagnostic entry by its values.
pub struct EntryView {
    pub label: Seq<char>,
    pub status: Seq<char>,
    pub detail: Option<Seq<char>>,
}

/// The values of an entry.
pub open spec fn entry_view(e: DiagEntry) -> EntryView {
    EntryView { label: e.label@, status: e.status@, detail: opt_text(e.detail) }
}

/// The values of a list of entries.
pub open spec fn entry_views(v: Seq<DiagEntry>) -> Seq<EntryView> {
    v.map_values(|e: DiagEntry| entry_view(e))
}

/// The label of a format.
pub open spec fn format_label(f: FormatRow) -> Seq<char> {
    padded_to(f.extension, 6) + " "@ + f.label
}

fn label_of(f: &FormatEntry) -> (r: String)
    ensures
        r@ == format_label(f@),
{
    join3(pad_to(f.extension, 6).as_str(), " ", f.label)
}

/// What is missing of the USD tools, in this order.
pub open spec fn usd_missing(f3d: bool, python: bool, usd: bool) -> Seq<Seq<char>> {
    (if f3d {
        Seq::empty()
    } else {
        seq!["f3d"@]
    }) + (if !python {
        seq!["python3"@]
    } else if !usd {
        seq!["usd-core"@]
    } else {
        Seq::empty()
    })
}

/// Python has the USD package, by its details.
pub open spec fn has_usd_core(env: Map<Seq<char>, BackendView>) -> bool {
    env.dom().contains("python3"@) && env["python3"@].details is Some && holds(
        env["python3"@].details->0,
        "usd-core available"@,
    )
}

/// Status and detail of a USD format: it needs the geometry renderer and Python
/// with the USD package.
pub open spec fn usd_status(env: Map<Seq<char>, BackendView>) -> (Seq<char>, Seq<char>) {
    let (f3d, python, usd) = (
        available_in(env, "f3d"@),
        available_in(env, "python3"@),
        has_usd_core(env),
    );
    if f3d && python && usd {
        ("available"@, "f3d + python3/usd-core"@)
    } else {
        ("missing"@, "requires: "@ + joined(usd_missing(f3d, python, usd), ", "@))
    }
}

/// Status and detail of a handler: its command where it is there, or else why it
/// is not.
pub open spec fn handler_status(env: Map<Seq<char>, BackendView>, h: HandlerDecl) -> (
    Seq<char>,
    Seq<char>,
) {
    if h.name@ == "usdz"@ {
        usd_status(env)
    } else if available_in(env, h.name@) {
        ("available"@, h.command@)
    } else {
        (
            "missing"@,
            if env.dom().contains(h.name@) && env[h.name@].unavailable_reason is Some {
                env[h.name@].unavailable_reason->0
            } else {
                "not found"@
            },
        )
    }
}

/// The entry of a tier-3 format: the status of the first handler that claims its
/// extension.
pub open spec fn tier3_entry(
    f: FormatRow,
    handlers: Seq<HandlerDecl>,
    env: Map<Seq<char>, BackendView>,
) -> EntryView {
    let (status, detail) = match handler_for(handlers, f.extension, 0) {
        Some(i) => handler_status(env, handlers[i]),
        None => ("unregistered"@, Seq::empty()),
    };
    EntryView {
        label: format_label(f),
        status,
        detail: if detail.len() == 0 {
            None
        } else {
            Some(detail)
        },
    }
}

/// The entry of a tier-2 format.
pub open spec fn tier2_entry(f: FormatRow) -> EntryView {
    EntryView { label: format_label(f), status: "builtin"@, detail: Some(f.renderer) }
}

/// The entries of the tier-2 formats among the first `n` of a manifest.
pub open spec fn tier2_entries(m: Seq<FormatEntry>, n: int) -> Seq<EntryView>
    decreases n,
{
    if n <= 0 {
        Seq::empty()
    } else if m[n - 1].tier == 2 {
        tier2_entries(m, n - 1).push(tier2_entry(m[n - 1]@))
    } else {
        tier2_entries(m, n - 1)
    }
}

/// The entries of the tier-3 formats among the first `n` of a manifest.
pub open spec fn tier3_entries(
    m: Seq<FormatEntry>,
    handlers: Seq<HandlerDecl>,
    env: Map<Seq<char>, BackendView>,
    n: int,
) -> Seq<EntryView>
    decreases n,
{
    if n <= 0 {
        Seq::empty()
    } else if m[n - 1].tier == 3 {
        tier3_entries(m, handlers, env, n - 1).push(tier3_entry(m[n - 1]@, handlers, env))
    } else {
        tier3_entries(m, handlers, env, n - 1)
    }
}

fn push_entry(list: &mut Vec<DiagEntry>, label: String, status: String, detail: Option<String>)
    ensures
        entry_views(final(list)@) == entry_views(old(list)@).push(
            EntryView { label: label@, status: status@, detail: opt_text(detail) },
        ),
{
    let e = DiagEntry { label, status, detail };
    let ghost v = e;
    list.push(e);
    assert(entry_views(list@) =~= entry_views(old(list)@).push(entry_view(v)));
}

fn no_entries() -> (r: Vec<DiagEntry>)
    ensures
        entry_views(r@) == Seq::<EntryView>::empty(),
{
    let v: Vec<DiagEntry> = Vec::new();
    assert(entry_views(v@) =~= Seq::<EntryView>::empty());
    v
}

/// Lists the tier-2 formats of a manifest.
fn list_tier2(m: &Vec<FormatEntry>) -> (r: Vec<DiagEntry>)
    ensures
        entry_views(r@) == tier2_entries(m@, m@.len() as int),
{
    let mut out = no_entries();
    let mut i: usize = 0;
    while i < m.len()
        invariant
            i <= m@.len(),
            entry_views(out@) == tier2_entries(m@, i as int),
        decreases m@.len() - i,
    {
        let f = m[i];
        if f.tier == 2 {
            push_entry(&mut out, label_of(&f), owned("builtin"), Some(owned(f.renderer)));
        }
        i += 1;
    }
    out
}

fn usd_status_of(env: &EnvReport) -> (r: (String, String))
    requires
        env.wf(),
    ensures
        (r.0@, r.1@) == usd_status(env.entries()),
{
    let f3d = env.is_available("f3d");
    let python = env.is_available("python3");
    let usd = match env.get("python3") {
        Some(b) => match &b.details {
            Some(d) => contains(d.as_str(), "usd-core available"),
            None => false,
        },
        None => false,
    };
    assert(usd == has_usd_core(env.entries()));
    if f3d && python && usd {
        return (owned("available"), owned("f3d + python3/usd-core"));
    }
    let mut missing: Vec<String> = Vec::new();
    assert(texts(missing@) =~= Seq::<Seq<char>>::empty());
    if !f3d {
        push_text(&mut missing, owned("f3d"));
    }
    if !python {
        push_text(&mut missing, owned("python3"));
    } else if !usd {
        push_text(&mut missing, owned("usd-core"));
    }
    assert(texts(missing@) =~= usd_missing(f3d, python, usd));
    (owned("missing"), join2("requires: ", join(&missing, ", ").as_str()))
}

fn handler_status_of(env: &EnvReport, h: &HandlerDecl) -> (r: (String, String))
    requires
        env.wf(),
    ensures
        (r.0@, r.1@) == handler_status(env.entries(), *h),
{
    if same(h.name.as_str(), "usdz") {
        return usd_status_of(env);
    }
    match env.get(h.name.as_str()) {
        Some(b) => {
            if b.available {
                return (owned("available"), h.command.clone());
            }
            match &b.unavailable_reason {
                Some(reason) => (owned("missing"), reason.clone()),
                None => (owned("missing"), owned("not found")),
            }
        },
        None => (owned("missing"), owned("not found")),
    }
}

/// Lists the tier-3 formats of a manifest.
fn list_tier3(m: &Vec<FormatEntry>, handlers: &Vec<HandlerDecl>, env: &EnvReport) -> (r: Vec<
    DiagEntry,
>)
    requires
        env.wf(),
    ensures
        entry_views(r@) == tier3_entries(m@, handlers@, env.entries(), m@.len() as int),
{
    let mut out = no_entries();
    let mut i: usize = 0;
    while i < m.len()
        invariant
            i <= m@.len(),
            env.wf(),
            entry_views(out@) == tier3_entries(m@, handlers@, env.entries(), i as int),
        decreases m@.len() - i,
    {
        let f = m[i];
        if f.tier == 3 {
            let (status, detail) = match find_handler(handlers, f.extension) {
                Some(k) => handler_status_of(env, &handlers[k]),
                None => (owned("unregistered"), String::new()),
            };
            let detail = if detail.as_str().is_empty() {
                None
            } else {
                Some(detail)
            };
            push_entry(&mut out, label_of(&f), status, detail);
        }
        i += 1;
    }
    out
}

/// The entry of a tool, if it was probed.
pub open spec fn with_general(
    v: Seq<EntryView>,
    env: Map<Seq<char>, BackendView>,
    name: Seq<char>,
) -> Seq<EntryView> {
    if env.dom().contains(name) {
        let b = env[name];
        v.push(
            EntryView {
                label: b.name,
                status: if b.available {
                    "available"@
                } else {
                    "missing"@
                },
                detail: if b.details is Some {
                    b.details
                } else {
                    b.unavailable_reason
                },
            },
        )
    } else {
        v
    }
}

/// The entries of the tools that are tied to no extension.
pub open spec fn general_entries(env: Map<Seq<char>, BackendView>) -> Seq<EntryView> {
    let a = with_general(Seq::empty(), env, "f3d"@);
    let b = with_general(a, env, "python3"@);
    let c = with_general(b, env, "ffmpeg_cli"@);
    let d = with_general(c, env, "magick"@);
    let e = with_general(d, env, "oiiotool"@);
    let f = with_general(e, env, "bwrap"@);
    with_general(f, env, "display_server"@)
}

fn add_general(out: &mut Vec<DiagEntry>, env: &EnvReport, name: &str)
    requires
        env.wf(),
    ensures
        entry_views(final(out)@) == with_general(entry_views(old(out)@), env.entries(), name@),
{
    if let Some(b) = env.get(name) {
        let status = if b.available {
            owned("available")
        } else {
            owned("missing")
        };
        let detail: Option<String> = match (&b.details, &b.unavailable_reason) {
            (Some(d), _) => Some(d.clone()),
            (None, Some(r)) => Some(r.clone()),
            (None, None) => None,
        };
        push_entry(out, b.name.clone(), status, detail);
    }
}

/// A section says this.
pub open spec fn section_says(
    s: DiagSection,
    heading: Seq<char>,
    entries: Seq<EntryView>,
) -> bool {
    s.heading@ == heading && entry_views(s.entries@) == entries
}

/// A heading that counts formats.
pub open spec fn counted(title: Seq<char>, n: nat) -> Seq<char> {
    title + decimal(n) + " formats)"@
}

fn counted_heading(title: &str, n: usize) -> (r: String)
    ensures
        r@ == counted(title@, n as nat),
{
    join3(title, decimal_of(n as u64).as_str(), " formats)")
}

/// Registers tier 3's sections: the formats of tier 2, the formats of tier 3 with
/// the status of their handlers, and the general tools.
pub fn register_tier3_diag(
    registry: &mut DiagRegistry,
    manifest: &Vec<FormatEntry>,
    handlers: &Vec<HandlerDecl>,
    env: &EnvReport,
)
    requires
        env.wf(),
    ensures
        final(registry).sections@.len() == old(registry).sections@.len() + 3,
        final(registry).sections@.subrange(0, old(registry).sections@.len() as int) == old(
            registry,
        ).sections@,
        ({
            let n = old(registry).sections@.len() as int;
            let s = final(registry).sections@;
            let two = tier2_entries(manifest@, manifest@.len() as int);
            let three = tier3_entries(
                manifest@,
                handlers@,
                env.entries(),
                manifest@.len() as int,
            );
            &&& section_says(s[n], counted("Tier 2 \u{2014} Supported Formats ("@, two.len()), two)
            &&& section_says(
                s[n + 1],
                counted("Tier 3 \u{2014} Subprocess Handlers ("@, three.len()),
                three,
            )
            &&& section_says(
                s[n + 2],
                "Tier 3 \u{2014} General Tools"@,
                general_entries(env.entries()),
            )
        }),
        final(registry).tier2_builtin == old(registry).tier2_builtin,
        final(registry).tier3_builtin == old(registry).tier3_builtin,
{
    let two = list_tier2(manifest);
    assert(entry_views(two@).len() == two@.len());
    register_section(
        registry,
        DiagSection {
            heading: counted_heading("Tier 2 \u{2014} Supported Formats (", two.len()),
            entries: two,
        },
    );
    let three = list_tier3(manifest, handlers, env);
    assert(entry_views(three@).len() == three@.len());
    register_section(
        registry,
        DiagSection {
            heading: counted_heading("Tier 3 \u{2014} Subprocess Handlers (", three.len()),
            entries: three,
        },
    );
    let mut tools = no_entries();
    add_general(&mut tools, env, "f3d");
    add_general(&mut tools, env, "python3");
    add_general(&mut tools, env, "ffmpeg_cli");
    add_general(&mut tools, env, "magick");
    add_general(&mut tools, env, "oiiotool");
    add_general(&mut tools, env, "bwrap");
    add_general(&mut tools, env, "display_server");
    register_section(
        registry,
        DiagSection { heading: owned("Tier 3 \u{2014} General Tools"), entries: tools },
    );
    assert(registry.sections@.subrange(0, old(registry).sections@.len() as int) =~= old(
        registry,
    ).sections@);
}

} // verus!
