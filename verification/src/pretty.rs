//! A diagnostic report as lines of text.
use vstd::prelude::*;

use crate::diag::{
    bytes_text,
    fmt_diag_bytes,
    DiagEntry,
    DiagReport,
    DiagSection,
    FileCheck,
    RuntimeMode,
    TierStatus,
    Validation,
    ValidationStatus,
};
use crate::number::{decimal, decimal_of};
use crate::text::{chars_of, join2, join3, owned, push_text, texts};

verus! {

/// The text with spaces behind it up to `n` characters.
pub open spec fn padded_to(s: Seq<char>, n: int) -> Seq<char>
    decreases n - s.len(),
{
    if s.len() >= n {
        s
    } else {
        padded_to(s.push(' '), n)
    }
}

/// Puts spaces behind a text up to `n` characters.
pub fn pad_to(s: &str, n: usize) -> (r: String)
    ensures
        r@ == padded_to(s@, n as int),
{
    let mut out = owned(s);
    let mut k: usize = chars_of(s).len();
    while k < n
        invariant
            k == out@.len(),
            padded_to(s@, n as int) == padded_to(out@, n as int),
        decreases n - k,
    {
        out.push(' ');
        k += 1;
    }
    out
}

/// The text of an optional string, or a stand-in.
pub open spec fn text_or(o: Option<String>, other: Seq<char>) -> Seq<char> {
    match o {
        Some(s) => s@,
        None => other,
    }
}

fn text_or_of(o: &Option<String>, other: &str) -> (r: String)
    ensures
        r@ == text_or(*o, other@),
{
    match o {
        Some(s) => s.clone(),
        None => owned(other),
    }
}

/// The word for a validation's status.
pub open spec fn status_word(s: ValidationStatus) -> Seq<char> {
    match s {
        ValidationStatus::Passed => "ok"@,
        ValidationStatus::NotConfigured => "not configured"@,
        ValidationStatus::Warn => "warn"@,
        ValidationStatus::Error => "error"@,
        ValidationStatus::Skipped => "skipped"@,
    }
}

/// The line of a validation.
pub open spec fn validation_line(label: Seq<char>, v: Validation) -> Seq<char> {
    match v.message {
        Some(m) => label + ": "@ + status_word(v.status) + " \u{2014} "@ + m@,
        None => label + ": "@ + status_word(v.status),
    }
}

fn print_validation(out: &mut Vec<String>, label: &str, v: &Validation)
    ensures
        texts(final(out)@) == texts(old(out)@).push(validation_line(label@, *v)),
{
    let word = match v.status {
        ValidationStatus::Passed => "ok",
        ValidationStatus::NotConfigured => "not configured",
        ValidationStatus::Warn => "warn",
        ValidationStatus::Error => "error",
        ValidationStatus::Skipped => "skipped",
    };
    let line = join3(label, ": ", word);
    match &v.message {
        Some(m) => push_text(out, join3(line.as_str(), " \u{2014} ", m.as_str())),
        None => push_text(out, line),
    }
}

/// The word for a tier's status.
pub open spec fn tier_word(s: TierStatus) -> Seq<char> {
    match s {
        TierStatus::Builtin => "builtin"@,
        TierStatus::Handoff => "handoff"@,
        TierStatus::Missing => "missing"@,
        TierStatus::Error => "error"@,
    }
}

/// The lines of a tier.
pub open spec fn tier_lines(
    label: Seq<char>,
    status: TierStatus,
    handoff: Option<String>,
    v: Validation,
) -> Seq<Seq<char>> {
    seq!["  "@ + padded_to(label, 16) + ": "@ + tier_word(status)] + (match handoff {
        Some(url) => seq!["    handoff       : "@ + url@],
        None => Seq::empty(),
    }) + seq![validation_line("    validation  "@, v)]
}

fn print_tier(
    out: &mut Vec<String>,
    label: &str,
    status: TierStatus,
    handoff: &Option<String>,
    v: &Validation,
)
    ensures
        texts(final(out)@) == texts(old(out)@) + tier_lines(label@, status, *handoff, *v),
{
    let word = match status {
        TierStatus::Builtin => "builtin",
        TierStatus::Handoff => "handoff",
        TierStatus::Missing => "missing",
        TierStatus::Error => "error",
    };
    let head = join2("  ", pad_to(label, 16).as_str());
    push_text(out, join3(head.as_str(), ": ", word));
    if let Some(url) = handoff {
        push_text(out, join2("    handoff       : ", url.as_str()));
    }
    print_validation(out, "    validation  ", v);
    assert(texts(out@) =~= texts(old(out)@) + tier_lines(label@, status, *handoff, *v));
}

/// The lines of a file check.
pub open spec fn file_lines(label: Seq<char>, fc: FileCheck) -> Seq<Seq<char>> {
    seq![
        "  "@ + padded_to(label, 16) + ": "@ + fc.path@,
        "    writable      : "@ + (if fc.writable {
            "yes"@
        } else {
            "NO (permission denied)"@
        }) + (match fc.note {
            Some(n) => "  ("@ + n@ + ")"@,
            None => Seq::empty(),
        }),
    ] + (match fc.free_bytes {
        Some(b) => seq!["    free          : "@ + bytes_text(b as int)],
        None => Seq::empty(),
    })
}

fn print_file_check(out: &mut Vec<String>, label: &str, fc: &FileCheck)
    ensures
        texts(final(out)@) == texts(old(out)@) + file_lines(label@, *fc),
{
    let head = join2("  ", pad_to(label, 16).as_str());
    push_text(out, join3(head.as_str(), ": ", fc.path.as_str()));
    let writable = if fc.writable {
        "yes"
    } else {
        "NO (permission denied)"
    };
    let note = match &fc.note {
        Some(n) => join3("  (", n.as_str(), ")"),
        None => String::new(),
    };
    push_text(out, join3("    writable      : ", writable, note.as_str()));
    if let Some(b) = fc.free_bytes {
        push_text(out, join2("    free          : ", fmt_diag_bytes(b).as_str()));
    }
    assert(texts(out@) =~= texts(old(out)@) + file_lines(label@, *fc));
}

/// The line of an entry.
pub open spec fn entry_line(e: DiagEntry) -> Seq<char> {
    "  "@ + padded_to(e.label@, 16) + " "@ + padded_to(e.status@, 12) + " "@ + text_or(
        e.detail,
        Seq::empty(),
    )
}

/// The lines of the first `n` entries.
pub open spec fn entry_lines(v: Seq<DiagEntry>, n: int) -> Seq<Seq<char>>
    decreases n,
{
    if n <= 0 {
        Seq::empty()
    } else {
        entry_lines(v, n - 1).push(entry_line(v[n - 1]))
    }
}

/// The lines of the first `n` sections, with an empty line behind each.
pub open spec fn section_lines(v: Seq<DiagSection>, n: int) -> Seq<Seq<char>>
    decreases n,
{
    if n <= 0 {
        Seq::empty()
    } else {
        section_lines(v, n - 1) + seq![v[n - 1].heading@] + entry_lines(
            v[n - 1].entries@,
            v[n - 1].entries@.len() as int,
        ) + seq![""@]
    }
}

fn print_entries(out: &mut Vec<String>, v: &Vec<DiagEntry>)
    ensures
        texts(final(out)@) == texts(old(out)@) + entry_lines(v@, v@.len() as int),
{
    let ghost start = texts(out@);
    let mut i: usize = 0;
    assert(start + entry_lines(v@, 0) =~= start);
    while i < v.len()
        invariant
            i <= v@.len(),
            texts(out@) == start + entry_lines(v@, i as int),
        decreases v@.len() - i,
    {
        let e = &v[i];
        let label = join3("  ", pad_to(e.label.as_str(), 16).as_str(), " ");
        let status = join3(label.as_str(), pad_to(e.status.as_str(), 12).as_str(), " ");
        let detail = text_or_of(&e.detail, "");
        proof {
            reveal_strlit("");
            assert(""@ =~= Seq::<char>::empty());
        }
        push_text(out, join2(status.as_str(), detail.as_str()));
        assert(texts(out@) =~= start + entry_lines(v@, i + 1));
        i += 1;
    }
}

fn print_sections(out: &mut Vec<String>, v: &Vec<DiagSection>)
    ensures
        texts(final(out)@) == texts(old(out)@) + section_lines(v@, v@.len() as int),
{
    let ghost start = texts(out@);
    let mut i: usize = 0;
    assert(start + section_lines(v@, 0) =~= start);
    while i < v.len()
        invariant
            i <= v@.len(),
            texts(out@) == start + section_lines(v@, i as int),
        decreases v@.len() - i,
    {
        push_text(out, v[i].heading.clone());
        print_entries(out, &v[i].entries);
        push_text(out, owned(""));
        assert(texts(out@) =~= start + section_lines(v@, i + 1));
        i += 1;
    }
}

/// The name of a runtime mode.
pub open spec fn runtime_name(r: RuntimeMode) -> Seq<char> {
    match r {
        RuntimeMode::Cli => "Cli"@,
        RuntimeMode::Wasm => "Wasm"@,
        RuntimeMode::Cloudflare => "Cloudflare"@,
        RuntimeMode::Library => "Library"@,
    }
}

/// A line with a label, where there is a value.
pub open spec fn labelled(label: Seq<char>, o: Option<String>) -> Seq<Seq<char>> {
    match o {
        Some(s) => seq![label + s@],
        None => Seq::empty(),
    }
}

/// The lines about the binary.
pub open spec fn binary_lines(r: DiagReport) -> Seq<Seq<char>> {
    seq![
        "Thumbrella \u{2014} Diagnostics"@,
        "\u{2500}\u{2500}\u{2500}\u{2500}\u{2500}\u{2500}\u{2500}\u{2500}\u{2500}\u{2500}\u{2500}\u{2500}\u{2500}\u{2500}\u{2500}\u{2500}\u{2500}\u{2500}\u{2500}\u{2500}\u{2500}\u{2500}\u{2500}\u{2500}\u{2500}\u{2500}\u{2500}\u{2500}\u{2500}\u{2500}\u{2500}\u{2500}\u{2500}\u{2500}\u{2500}\u{2500}\u{2500}\u{2500}\u{2500}\u{2500}\u{2500}\u{2500}\u{2500}\u{2500}\u{2500}\u{2500}\u{2500}\u{2500}"@,
        "  runtime         : "@ + runtime_name(r.runtime),
        "  version         : "@ + r.version@,
    ] + labelled("  build_timestamp : "@, r.build_timestamp) + labelled(
        "  container_image : "@,
        r.container_image,
    ) + seq![""@]
}

fn print_binary(out: &mut Vec<String>, r: &DiagReport)
    ensures
        texts(final(out)@) == texts(old(out)@) + binary_lines(*r),
{
    push_text(out, owned("Thumbrella \u{2014} Diagnostics"));
    push_text(
        out,
        owned(
            "\u{2500}\u{2500}\u{2500}\u{2500}\u{2500}\u{2500}\u{2500}\u{2500}\u{2500}\u{2500}\u{2500}\u{2500}\u{2500}\u{2500}\u{2500}\u{2500}\u{2500}\u{2500}\u{2500}\u{2500}\u{2500}\u{2500}\u{2500}\u{2500}\u{2500}\u{2500}\u{2500}\u{2500}\u{2500}\u{2500}\u{2500}\u{2500}\u{2500}\u{2500}\u{2500}\u{2500}\u{2500}\u{2500}\u{2500}\u{2500}\u{2500}\u{2500}\u{2500}\u{2500}\u{2500}\u{2500}\u{2500}\u{2500}",
        ),
    );
    let mode = match r.runtime {
        RuntimeMode::Cli => "Cli",
        RuntimeMode::Wasm => "Wasm",
        RuntimeMode::Cloudflare => "Cloudflare",
        RuntimeMode::Library => "Library",
    };
    push_text(out, join2("  runtime         : ", mode));
    push_text(out, join2("  version         : ", r.version.as_str()));
    if let Some(t) = &r.build_timestamp {
        push_text(out, join2("  build_timestamp : ", t.as_str()));
    }
    if let Some(c) = &r.container_image {
        push_text(out, join2("  container_image : ", c.as_str()));
    }
    push_text(out, owned(""));
    assert(texts(out@) =~= texts(old(out)@) + binary_lines(*r));
}

/// The lines about the server.
pub open spec fn server_lines(r: DiagReport) -> Seq<Seq<char>> {
    seq![
        "Server"@,
        "  port            : "@ + decimal(r.server_port as nat),
        "  port_available  : "@ + (if r.port_available {
            "available"@
        } else {
            "UNAVAILABLE (already in use or permission denied)"@
        }),
        "  server_id       : "@ + text_or(r.server_id, "\u{2014}"@),
        "  allow_local     : "@ + (if r.allow_local {
            "true"@
        } else {
            "false"@
        }),
        "  trace_url       : "@ + text_or(r.trace_url, "none"@),
        validation_line("  trace_validation"@, r.trace_validation),
    ] + (match r.trace_file_check {
        Some(fc) => file_lines("trace_file"@, fc),
        None => Seq::empty(),
    }) + seq![
        "  handshake       : "@ + (if r.handshake_set {
            "set"@
        } else {
            "\u{2014}"@
        }),
        validation_line("  handshake_check "@, r.handshake_validation),
        ""@,
    ]
}

fn print_server(out: &mut Vec<String>, r: &DiagReport)
    ensures
        texts(final(out)@) == texts(old(out)@) + server_lines(*r),
{
    push_text(out, owned("Server"));
    push_text(out, join2("  port            : ", decimal_of(r.server_port as u64).as_str()));
    let port = if r.port_available {
        "available"
    } else {
        "UNAVAILABLE (already in use or permission denied)"
    };
    push_text(out, join2("  port_available  : ", port));
    push_text(out, join2("  server_id       : ", text_or_of(&r.server_id, "\u{2014}").as_str()));
    let local = if r.allow_local {
        "true"
    } else {
        "false"
    };
    push_text(out, join2("  allow_local     : ", local));
    push_text(out, join2("  trace_url       : ", text_or_of(&r.trace_url, "none").as_str()));
    print_validation(out, "  trace_validation", &r.trace_validation);
    if let Some(fc) = &r.trace_file_check {
        print_file_check(out, "trace_file", fc);
    }
    let handshake = if r.handshake_set {
        "set"
    } else {
        "\u{2014}"
    };
    push_text(out, join2("  handshake       : ", handshake));
    print_validation(out, "  handshake_check ", &r.handshake_validation);
    push_text(out, owned(""));
    assert(texts(out@) =~= texts(old(out)@) + server_lines(*r));
}

/// The lines about the tiers; tier 1 is part of the binary, and needs no check.
pub open spec fn tiers_lines(r: DiagReport) -> Seq<Seq<char>> {
    seq!["Tiers"@] + tier_lines(
        "tier1"@,
        r.tier1,
        None,
        Validation { status: ValidationStatus::Passed, message: None },
    ) + tier_lines("tier2"@, r.tier2, r.tier2_handoff, r.tier2_validation) + tier_lines(
        "tier3"@,
        r.tier3,
        r.tier3_handoff,
        r.tier3_validation,
    ) + seq![""@]
}

fn print_tiers(out: &mut Vec<String>, r: &DiagReport)
    ensures
        texts(final(out)@) == texts(old(out)@) + tiers_lines(*r),
{
    push_text(out, owned("Tiers"));
    let passed = Validation { status: ValidationStatus::Passed, message: None };
    print_tier(out, "tier1", r.tier1, &None, &passed);
    print_tier(out, "tier2", r.tier2, &r.tier2_handoff, &r.tier2_validation);
    print_tier(out, "tier3", r.tier3, &r.tier3_handoff, &r.tier3_validation);
    push_text(out, owned(""));
    assert(texts(out@) =~= texts(old(out)@) + tiers_lines(*r));
}

/// The lines about the cache.
pub open spec fn cache_lines(r: DiagReport) -> Seq<Seq<char>> {
    seq![
        "Cache"@,
        "  config          : "@ + text_or(r.cache_config, "\u{2014}"@),
        validation_line("  validation"@, r.cache_validation),
    ] + (match r.cache_file_check {
        Some(fc) => file_lines("file"@, fc) + (match fc.sqlite_validation {
            Some(v) => seq![validation_line("    schema      "@, v)],
            None => Seq::empty(),
        }),
        None => Seq::empty(),
    }) + seq![""@]
}

fn print_cache(out: &mut Vec<String>, r: &DiagReport)
    ensures
        texts(final(out)@) == texts(old(out)@) + cache_lines(*r),
{
    push_text(out, owned("Cache"));
    push_text(out, join2("  config          : ", text_or_of(&r.cache_config, "\u{2014}").as_str()));
    print_validation(out, "  validation", &r.cache_validation);
    if let Some(fc) = &r.cache_file_check {
        print_file_check(out, "file", fc);
        if let Some(v) = &fc.sqlite_validation {
            print_validation(out, "    schema      ", v);
        }
    }
    push_text(out, owned(""));
    assert(texts(out@) =~= texts(old(out)@) + cache_lines(*r));
}

/// All lines of a report.
pub open spec fn report_lines(r: DiagReport) -> Seq<Seq<char>> {
    binary_lines(r) + server_lines(r) + tiers_lines(r) + cache_lines(r) + section_lines(
        r.extensions@,
        r.extensions@.len() as int,
    ) + seq![
        if r.healthy {
            "Overall: OK \u{2713}"@
        } else {
            "Overall: DEGRADED \u{2717}"@
        },
    ]
}

impl DiagReport {
    /// Writes a report as lines of text.
    pub fn print_pretty(&self) -> (r: Vec<String>)
        ensures
            texts(r@) == report_lines(*self),
    {
        let mut out: Vec<String> = Vec::new();
        print_binary(&mut out, self);
        print_server(&mut out, self);
        print_tiers(&mut out, self);
        print_cache(&mut out, self);
        print_sections(&mut out, &self.extensions);
        if self.healthy {
            push_text(&mut out, owned("Overall: OK \u{2713}"));
        } else {
            push_text(&mut out, owned("Overall: DEGRADED \u{2717}"));
        }
        assert(texts(out@) =~= report_lines(*self));
        out
    }
}

} // verus!
