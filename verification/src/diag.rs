//! Server diagnostics: what is configured, and whether it works.
//!
//! The report is for operators only: it holds configuration values and handoff
//! URLs, and is never sent over HTTP.
use vstd::prelude::*;
use vstd::string::*;

use crate::cache::dsn::{dsn_check, validate_dsn};
use crate::config::AppConfig;
use crate::connect::{auth_token, looks_like_auth_token};
use crate::cook::copy_text;
use crate::number::{decimal, decimal_of};
use crate::text::{
    chars_of,
    contains,
    has_prefix,
    holds,
    join2,
    join3,
    opt_text,
    owned,
    parts,
    push_text,
    split,
    starts_with,
    string_from_chars,
    strip_end,
    texts,
    trim,
    trim_end_char,
    trimmed,
};

verus! {

/// The execution environment of this binary.
#[derive(Clone, Copy, Debug, PartialEq, Eq, Structural)]
pub enum RuntimeMode {
    Cli,
    Wasm,
    Cloudflare,
    Library,
}

/// Availability of a processing tier.
#[derive(Clone, Copy, Debug, PartialEq, Eq, Structural)]
pub enum TierStatus {
    /// Renderer is built into this binary.
    Builtin,
    /// Tier delegates to an external handoff server.
    Handoff,
    /// No renderer is configured.
    Missing,
    /// Configured but validation failed.
    Error,
}

/// Outcome of validating a configurable dependency.
#[derive(Clone, Copy, Debug, PartialEq, Eq, Structural)]
pub enum ValidationStatus {
    Passed,
    /// Not configured; no check was performed.
    NotConfigured,
    /// A non-fatal issue was found.
    Warn,
    Error,
    /// Validation was not attempted.
    Skipped,
}

/// Result of a single validation check.
#[derive(Debug)]
pub struct Validation {
    pub status: ValidationStatus,
    pub message: Option<String>,
}

impl Validation {
    /// A passed check.
    pub fn ok() -> (r: Validation)
        ensures
            r == (Validation { status: ValidationStatus::Passed, message: None }),
    {
        Validation { status: ValidationStatus::Passed, message: None }
    }

    /// Nothing to check.
    pub fn not_configured() -> (r: Validation)
        ensures
            r == (Validation { status: ValidationStatus::NotConfigured, message: None }),
    {
        Validation { status: ValidationStatus::NotConfigured, message: None }
    }

    /// A failed check.
    pub fn error(msg: String) -> (r: Validation)
        ensures
            r == (Validation { status: ValidationStatus::Error, message: Some(msg) }),
    {
        Validation { status: ValidationStatus::Error, message: Some(msg) }
    }

    /// A non-fatal issue.
    pub fn warn(msg: String) -> (r: Validation)
        ensures
            r == (Validation { status: ValidationStatus::Warn, message: Some(msg) }),
    {
        Validation { status: ValidationStatus::Warn, message: Some(msg) }
    }

    /// A check that was not made.
    pub fn skipped() -> (r: Validation)
        ensures
            r == (Validation { status: ValidationStatus::Skipped, message: None }),
    {
        Validation { status: ValidationStatus::Skipped, message: None }
    }
}

/// Write access and disk space of a file-backed backend.
#[derive(Debug)]
pub struct FileCheck {
    pub path: String,
    /// Whether the process can write there.
    pub writable: bool,
    /// Said where something else was checked in its place.
    pub note: Option<String>,
    /// Free bytes on its filesystem.
    pub free_bytes: Option<u64>,
    /// Schema validation of a database file.
    pub sqlite_validation: Option<Validation>,
}

/// A single line item in a diagnostic section.
#[derive(Debug)]
pub struct DiagEntry {
    pub label: String,
    pub status: String,
    pub detail: Option<String>,
}

/// A diagnostic section contributed by a higher tier.
#[derive(Debug)]
pub struct DiagSection {
    pub heading: String,
    pub entries: Vec<DiagEntry>,
}

/// Two sections say the same.
pub open spec fn same_section(a: DiagSection, b: DiagSection) -> bool {
    a.heading == b.heading && a.entries@ == b.entries@
}

/// What higher tiers registered at startup.
#[derive(Debug)]
pub struct DiagRegistry {
    pub sections: Vec<DiagSection>,
    pub tier2_builtin: bool,
    pub tier3_builtin: bool,
}

impl DiagRegistry {
    /// Nothing registered.
    pub fn new() -> (r: DiagRegistry)
        ensures
            r.sections@.len() == 0,
            !r.tier2_builtin,
            !r.tier3_builtin,
    {
        DiagRegistry { sections: Vec::new(), tier2_builtin: false, tier3_builtin: false }
    }
}

/// Registers a diagnostic section.
pub fn register_section(registry: &mut DiagRegistry, section: DiagSection)
    ensures
        final(registry).sections@ == old(registry).sections@.push(section),
        final(registry).tier2_builtin == old(registry).tier2_builtin,
        final(registry).tier3_builtin == old(registry).tier3_builtin,
{
    registry.sections.push(section);
}

fn copy_entries(entries: &Vec<DiagEntry>) -> (r: Vec<DiagEntry>)
    ensures
        r@ == entries@,
{
    let mut out: Vec<DiagEntry> = Vec::new();
    let mut i: usize = 0;
    while i < entries.len()
        invariant
            i <= entries@.len(),
            out@ =~= entries@.subrange(0, i as int),
        decreases entries@.len() - i,
    {
        out.push(
            DiagEntry {
                label: entries[i].label.clone(),
                status: entries[i].status.clone(),
                detail: copy_text(&entries[i].detail),
            },
        );
        i += 1;
    }
    assert(out@ =~= entries@);
    out
}

/// Two lists of sections say the same.
pub open spec fn same_sections(a: Seq<DiagSection>, b: Seq<DiagSection>) -> bool {
    a.len() == b.len() && forall|i: int| 0 <= i < a.len() ==> same_section(#[trigger] a[i], b[i])
}

/// A snapshot of all registered sections, in the order of registration.
pub fn collect_sections(registry: &DiagRegistry) -> (r: Vec<DiagSection>)
    ensures
        same_sections(r@, registry.sections@),
{
    let mut out: Vec<DiagSection> = Vec::new();
    let mut i: usize = 0;
    while i < registry.sections.len()
        invariant
            i <= registry.sections@.len(),
            out@.len() == i,
            forall|j: int| 0 <= j < i ==> same_section(#[trigger] out@[j], registry.sections@[j]),
        decreases registry.sections@.len() - i,
    {
        let s = &registry.sections[i];
        out.push(DiagSection { heading: s.heading.clone(), entries: copy_entries(&s.entries) });
        i += 1;
    }
    out
}

/// Notes that tier 2 is built into this binary.
pub fn mark_tier2_builtin(registry: &mut DiagRegistry)
    ensures
        *final(registry) == (DiagRegistry { tier2_builtin: true, ..*old(registry) }),
{
    registry.tier2_builtin = true;
}

/// Notes that tier 3 is built into this binary.
pub fn mark_tier3_builtin(registry: &mut DiagRegistry)
    ensures
        *final(registry) == (DiagRegistry { tier3_builtin: true, ..*old(registry) }),
{
    registry.tier3_builtin = true;
}

/// Whether a higher tier is built into this binary.
pub fn has_builtin_renderer(registry: &DiagRegistry) -> (r: bool)
    ensures
        r == (registry.tier2_builtin || registry.tier3_builtin),
{
    registry.tier2_builtin || registry.tier3_builtin
}

/// Full server diagnostic report.
#[derive(Debug)]
pub struct DiagReport {
    pub runtime: RuntimeMode,
    pub version: String,
    pub build_timestamp: Option<String>,
    pub server_port: u16,
    /// Whether the port can be bound.
    pub port_available: bool,
    pub server_id: Option<String>,
    pub allow_local: bool,
    pub trace_url: Option<String>,
    pub trace_validation: Validation,
    pub trace_file_check: Option<FileCheck>,
    pub handshake_set: bool,
    pub handshake_validation: Validation,
    /// Tier 1 is always built in.
    pub tier1: TierStatus,
    pub tier2: TierStatus,
    pub tier2_handoff: Option<String>,
    pub tier2_validation: Validation,
    pub tier3: TierStatus,
    pub tier3_handoff: Option<String>,
    pub tier3_validation: Validation,
    pub cache_config: Option<String>,
    pub cache_validation: Validation,
    pub cache_file_check: Option<FileCheck>,
    /// Every required component passed validation.
    pub healthy: bool,
    pub container_image: Option<String>,
    pub extensions: Vec<DiagSection>,
}

/// What was found out about the surroundings. The validations of the handoff
/// targets and of the trace sink count only where those are configured.
#[derive(Debug)]
pub struct DiagProbes {
    pub version: String,
    pub build_timestamp: Option<String>,
    pub port_available: bool,
    pub tier2_target: Validation,
    pub tier3_target: Validation,
    pub trace: Validation,
    pub trace_file_check: Option<FileCheck>,
    pub cache_file_check: Option<FileCheck>,
    pub container_image: Option<String>,
}

/// A failed check.
pub open spec fn is_error(v: Validation) -> bool {
    v.status == ValidationStatus::Error
}

/// A report without a failed check and with a free port; the schema of the
/// cache's database counts too.
pub open spec fn all_well(r: DiagReport) -> bool {
    &&& r.tier2 != TierStatus::Error && r.tier3 != TierStatus::Error
    &&& !is_error(r.tier2_validation) && !is_error(r.tier3_validation)
    &&& !is_error(r.cache_validation) && !is_error(r.trace_validation)
    &&& !is_error(r.handshake_validation)
    &&& r.port_available
    &&& match r.cache_file_check {
        Some(fc) => match fc.sqlite_validation {
            Some(v) => !is_error(v),
            None => true,
        },
        None => true,
    }
}

/// A tier is reported as built in, as handed off to its target, or as missing.
pub open spec fn tier_reported(
    builtin: bool,
    url: Option<String>,
    probe: Validation,
    status: TierStatus,
    handoff: Option<String>,
    validation: Validation,
) -> bool {
    if builtin {
        status == TierStatus::Builtin && handoff is None && validation == (Validation {
            status: ValidationStatus::Passed,
            message: None,
        })
    } else if url is Some {
        status == TierStatus::Handoff && handoff == url && validation == probe
    } else {
        status == TierStatus::Missing && handoff is None && validation == (Validation {
            status: ValidationStatus::NotConfigured,
            message: None,
        })
    }
}

/// Reports a tier.
fn report_tier(builtin: bool, url: &Option<String>, probe: Validation) -> (r: (
    TierStatus,
    Option<String>,
    Validation,
))
    ensures
        tier_reported(builtin, *url, probe, r.0, r.1, r.2),
{
    if builtin {
        (TierStatus::Builtin, None, Validation::ok())
    } else {
        match url {
            Some(u) => (TierStatus::Handoff, Some(u.clone()), probe),
            None => (TierStatus::Missing, None, Validation::not_configured()),
        }
    }
}

/// A handshake that looks like an auth token is a mistake.
pub open spec fn handshake_checked(handshake: Option<Seq<char>>, v: Validation) -> bool {
    match handshake {
        None => v == (Validation { status: ValidationStatus::NotConfigured, message: None }),
        Some(h) => if auth_token(h) {
            v.status == ValidationStatus::Error && opt_text(v.message) == Some(
                "looks like an auth token (starts with 'tbr_'); set a simple shared secret instead"@,
            )
        } else {
            v == (Validation { status: ValidationStatus::Passed, message: None })
        },
    }
}

/// Checks the handshake value.
pub fn check_handshake(handshake: &Option<String>) -> (r: Validation)
    ensures
        handshake_checked(opt_text(*handshake), r),
{
    match handshake {
        None => Validation::not_configured(),
        Some(h) => if looks_like_auth_token(h.as_str()) {
            Validation::error(
                owned(
                    "looks like an auth token (starts with 'tbr_'); set a simple shared secret instead",
                ),
            )
        } else {
            Validation::ok()
        },
    }
}

/// A cache is reported by its spec and the validation of it.
pub open spec fn cache_reported(dsn: Option<String>, config: Option<String>, v: Validation) -> bool {
    &&& config == dsn
    &&& match dsn {
        Some(d) => match dsn_check(d@) {
            Ok(_) => v == (Validation { status: ValidationStatus::Passed, message: None }),
            Err(e) => v.status == ValidationStatus::Error && opt_text(v.message) == Some(e),
        },
        None => v == (Validation { status: ValidationStatus::NotConfigured, message: None }),
    }
}

/// A report agrees with configuration, probes and registrations.
pub open spec fn reports(r: DiagReport, cfg: AppConfig, p: DiagProbes, reg: DiagRegistry) -> bool {
    &&& r.runtime == RuntimeMode::Cli
    &&& r.version == p.version
    &&& r.build_timestamp == p.build_timestamp
    &&& r.server_port == cfg.port
    &&& r.port_available == p.port_available
    &&& r.server_id == cfg.server
    &&& r.allow_local == cfg.allow_local
    &&& r.trace_url == cfg.trace_url
    &&& if cfg.trace_url is Some {
        r.trace_validation == p.trace && r.trace_file_check == p.trace_file_check
    } else {
        r.trace_validation == (Validation {
            status: ValidationStatus::NotConfigured,
            message: None,
        }) && r.trace_file_check is None
    }
    &&& r.handshake_set == (cfg.handshake is Some)
    &&& handshake_checked(opt_text(cfg.handshake), r.handshake_validation)
    &&& r.tier1 == TierStatus::Builtin
    &&& tier_reported(
        reg.tier2_builtin,
        cfg.tier2.url,
        p.tier2_target,
        r.tier2,
        r.tier2_handoff,
        r.tier2_validation,
    )
    &&& tier_reported(
        reg.tier3_builtin,
        cfg.tier3.url,
        p.tier3_target,
        r.tier3,
        r.tier3_handoff,
        r.tier3_validation,
    )
    &&& cache_reported(cfg.cache_url, r.cache_config, r.cache_validation)
    &&& r.cache_file_check == (if cache_file(cfg.cache_url) {
        p.cache_file_check
    } else {
        None
    })
    &&& r.container_image == p.container_image
    &&& same_sections(r.extensions@, reg.sections@)
    &&& r.healthy == all_well(r)
}

/// The cache spec is valid and names a database file.
pub open spec fn cache_file(dsn: Option<String>) -> bool {
    match dsn {
        Some(d) => match dsn_check(d@) {
            Ok(Some(_)) => true,
            _ => false,
        },
        None => false,
    }
}

/// Whether a check failed.
fn failed(v: &Validation) -> (r: bool)
    ensures
        r == is_error(*v),
{
    v.status == ValidationStatus::Error
}

/// Whether nothing in a report speaks against the server's health.
fn well(r: &DiagReport) -> (b: bool)
    ensures
        b == all_well(*r),
{
    let schema = match &r.cache_file_check {
        Some(fc) => match &fc.sqlite_validation {
            Some(v) => !failed(v),
            None => true,
        },
        None => true,
    };
    r.tier2 != TierStatus::Error && r.tier3 != TierStatus::Error && !failed(&r.tier2_validation)
        && !failed(&r.tier3_validation) && !failed(&r.cache_validation) && !failed(
        &r.trace_validation,
    ) && !failed(&r.handshake_validation) && r.port_available && schema
}

/// Collects the diagnostic report.
pub fn collect(cfg: &AppConfig, probes: DiagProbes, registry: &DiagRegistry) -> (r: DiagReport)
    ensures
        reports(r, *cfg, probes, *registry),
{
    let (tier2, tier2_handoff, tier2_validation) = report_tier(
        registry.tier2_builtin,
        &cfg.tier2.url,
        probes.tier2_target,
    );
    let (tier3, tier3_handoff, tier3_validation) = report_tier(
        registry.tier3_builtin,
        &cfg.tier3.url,
        probes.tier3_target,
    );
    let (cache_validation, file) = match &cfg.cache_url {
        Some(dsn) => validate_dsn(dsn.as_str()),
        None => (Validation::not_configured(), None),
    };
    let cache_file_check = if file.is_some() {
        probes.cache_file_check
    } else {
        None
    };
    let (trace_validation, trace_file_check) = if cfg.trace_url.is_some() {
        (probes.trace, probes.trace_file_check)
    } else {
        (Validation::not_configured(), None)
    };
    let mut report = DiagReport {
        runtime: RuntimeMode::Cli,
        version: probes.version,
        build_timestamp: probes.build_timestamp,
        server_port: cfg.port,
        port_available: probes.port_available,
        server_id: copy_text(&cfg.server),
        allow_local: cfg.allow_local,
        trace_url: copy_text(&cfg.trace_url),
        trace_validation,
        trace_file_check,
        handshake_set: cfg.handshake.is_some(),
        handshake_validation: check_handshake(&cfg.handshake),
        tier1: TierStatus::Builtin,
        tier2,
        tier2_handoff,
        tier2_validation,
        tier3,
        tier3_handoff,
        tier3_validation,
        cache_config: copy_text(&cfg.cache_url),
        cache_validation,
        cache_file_check,
        healthy: false,
        container_image: probes.container_image,
        extensions: collect_sections(registry),
    };
    report.healthy = well(&report);
    report
}

/// What is still wrong with the tiers, cache, trace sink, handshake and port of
/// a report after later checks.
pub open spec fn still_well(r: DiagReport) -> bool {
    !is_error(r.tier2_validation) && !is_error(r.tier3_validation) && !is_error(r.cache_validation)
        && !is_error(r.trace_validation) && !is_error(r.handshake_validation) && r.port_available
}

/// Takes the outcomes of the later checks into a report: each that was made
/// replaces the earlier one, a failure makes the server unhealthy, and then its
/// health is judged anew, as a later success may have lifted an earlier failure.
pub fn apply_checks(
    report: DiagReport,
    cache: Option<Validation>,
    tier2: Option<Validation>,
    tier3: Option<Validation>,
) -> (r: DiagReport)
    ensures
        r.cache_validation == (match cache {
            Some(v) => v,
            None => report.cache_validation,
        }),
        r.tier2_validation == (match tier2 {
            Some(v) => v,
            None => report.tier2_validation,
        }),
        r.tier3_validation == (match tier3 {
            Some(v) => v,
            None => report.tier3_validation,
        }),
        r.healthy == ({
            let kept = report.healthy && (cache is None || !is_error(cache->0)) && (tier2 is None
                || !is_error(tier2->0)) && (tier3 is None || !is_error(tier3->0));
            kept || still_well(r)
        }),
        r == (DiagReport {
            cache_validation: r.cache_validation,
            tier2_validation: r.tier2_validation,
            tier3_validation: r.tier3_validation,
            healthy: r.healthy,
            ..report
        }),
{
    let mut r = report;
    if let Some(v) = cache {
        if failed(&v) {
            r.healthy = false;
        }
        r.cache_validation = v;
    }
    if let Some(v) = tier2 {
        if failed(&v) {
            r.healthy = false;
        }
        r.tier2_validation = v;
    }
    if let Some(v) = tier3 {
        if failed(&v) {
            r.healthy = false;
        }
        r.tier3_validation = v;
    }
    if !r.healthy {
        r.healthy = !failed(&r.tier2_validation) && !failed(&r.tier3_validation) && !failed(
            &r.cache_validation,
        ) && !failed(&r.trace_validation) && !failed(&r.handshake_validation) && r.port_available;
    }
    r
}

/// The lines with one more where there is an issue.
pub open spec fn noted(lines: Seq<Seq<char>>, is_issue: bool, text: Seq<char>) -> Seq<Seq<char>> {
    if is_issue {
        lines.push(text)
    } else {
        lines
    }
}

/// The issues of a report that are worth a line at startup.
pub open spec fn issue_texts(r: DiagReport) -> Seq<Seq<char>> {
    let s = Seq::<Seq<char>>::empty();
    let s = noted(s, r.tier2 == TierStatus::Error, "tier 2 handoff target is unreachable"@);
    let s = noted(s, r.tier3 == TierStatus::Error, "tier 3 handoff target is unreachable"@);
    let s = noted(s, is_error(r.tier2_validation), "tier 2 validation failed"@);
    let s = noted(s, is_error(r.tier3_validation), "tier 3 validation failed"@);
    let s = noted(
        s,
        is_error(r.cache_validation),
        "cache backend is unreachable or misconfigured"@,
    );
    let s = noted(s, is_error(r.trace_validation), "trace log sink is misconfigured"@);
    let s = noted(
        s,
        is_error(r.handshake_validation),
        "handshake value looks like an auth token"@,
    );
    match r.cache_file_check {
        Some(fc) => noted(s, !fc.writable, "cache file path is not writable: "@ + fc.path@),
        None => s,
    }
}

/// Adds a line where there is an issue.
fn note_issue(issues: &mut Vec<String>, is_issue: bool, text: &str)
    ensures
        texts(final(issues)@) == noted(texts(old(issues)@), is_issue, text@),
{
    if is_issue {
        push_text(issues, owned(text));
    }
}

/// Lists the issues of a report that are worth a line at startup.
pub fn startup_issues(r: &DiagReport) -> (issues: Vec<String>)
    ensures
        texts(issues@) == issue_texts(*r),
{
    let mut issues: Vec<String> = Vec::new();
    assert(texts(issues@) =~= Seq::<Seq<char>>::empty());
    note_issue(&mut issues, r.tier2 == TierStatus::Error, "tier 2 handoff target is unreachable");
    note_issue(&mut issues, r.tier3 == TierStatus::Error, "tier 3 handoff target is unreachable");
    note_issue(&mut issues, failed(&r.tier2_validation), "tier 2 validation failed");
    note_issue(&mut issues, failed(&r.tier3_validation), "tier 3 validation failed");
    note_issue(
        &mut issues,
        failed(&r.cache_validation),
        "cache backend is unreachable or misconfigured",
    );
    note_issue(&mut issues, failed(&r.trace_validation), "trace log sink is misconfigured");
    note_issue(
        &mut issues,
        failed(&r.handshake_validation),
        "handshake value looks like an auth token",
    );
    if let Some(fc) = &r.cache_file_check {
        let line = join2("cache file path is not writable: ", fc.path.as_str());
        note_issue(&mut issues, !fc.writable, line.as_str());
    }
    issues
}

/// So many units in tenths, rounded to the nearest, to the even one half way
/// between two.
pub open spec fn tenths(b: int, unit: int) -> int {
    let q = 10 * b / unit;
    let rest = 10 * b % unit;
    if 2 * rest > unit || (2 * rest == unit && q % 2 == 1) {
        q + 1
    } else {
        q
    }
}

/// A number of bytes in words: with one decimal in the largest unit that fits.
pub open spec fn bytes_text(b: int) -> Seq<char> {
    if b >= 1073741824 {
        tenths_text(tenths(b, 1073741824)) + " GiB"@
    } else if b >= 1048576 {
        tenths_text(tenths(b, 1048576)) + " MiB"@
    } else if b >= 1024 {
        tenths_text(tenths(b, 1024)) + " KiB"@
    } else {
        decimal(b as nat) + " B"@
    }
}

/// Tenths with their decimal point.
pub open spec fn tenths_text(t: int) -> Seq<char> {
    decimal((t / 10) as nat) + "."@ + decimal((t % 10) as nat)
}

/// Writes a number of units with one decimal.
fn in_units(b: u64, unit: u64, name: &str) -> (r: String)
    requires
        unit == 1024 || unit == 1048576 || unit == 1073741824,
    ensures
        r@ == tenths_text(tenths(b as int, unit as int)) + name@,
{
    let scaled: u128 = 10 * b as u128;
    let q: u128 = scaled / unit as u128;
    let rest: u128 = scaled % unit as u128;
    let t: u128 = if 2 * rest > unit as u128 || (2 * rest == unit as u128 && q % 2 == 1) {
        q + 1
    } else {
        q
    };
    let whole = decimal_of((t / 10) as u64);
    let part = decimal_of((t % 10) as u64);
    join3(whole.as_str(), ".", part.as_str()).concat(name)
}

/// Writes a number of bytes for a report.
pub fn fmt_diag_bytes(b: u64) -> (r: String)
    ensures
        r@ == bytes_text(b as int),
{
    if b >= 1073741824 {
        in_units(b, 1073741824, " GiB")
    } else if b >= 1048576 {
        in_units(b, 1048576, " MiB")
    } else if b >= 1024 {
        in_units(b, 1024, " KiB")
    } else {
        decimal_of(b).concat(" B")
    }
}

/// What was read of the surroundings to tell a container.
#[derive(Debug)]
pub struct ContainerClues {
    /// The operator's own label.
    pub label: Option<String>,
    /// The image's own release file.
    pub release: Option<String>,
    pub dockerenv: bool,
    pub containerenv: bool,
    /// The control groups of the first process.
    pub cgroup: Option<String>,
    /// The operating system's release file.
    pub os_release: Option<String>,
}

/// A line without the carriage return of its ending.
pub open spec fn line_body(line: Seq<char>) -> Seq<char> {
    if line.len() > 0 && line[line.len() - 1] == '\r' {
        line.subrange(0, line.len() - 1)
    } else {
        line
    }
}

/// The value that a release file's line gives a name: what stands behind it,
/// without quotes and surrounding white space.
pub open spec fn line_value(raw: Seq<char>, name: Seq<char>) -> Option<Seq<char>> {
    let line = line_body(raw);
    if has_prefix(line, name) {
        Some(trimmed(unquoted(line.subrange(name.len() as int, line.len() as int))))
    } else {
        None
    }
}

/// The text without quotes at its start.
pub open spec fn unquoted_start(s: Seq<char>) -> Seq<char>
    decreases s.len(),
{
    if s.len() > 0 && s[0] == '"' {
        unquoted_start(s.subrange(1, s.len() as int))
    } else {
        s
    }
}

/// The text without quotes at either end.
pub open spec fn unquoted(s: Seq<char>) -> Seq<char> {
    strip_end(unquoted_start(s), '"')
}

/// The first value of the lines from `i` on that is not empty.
pub open spec fn first_value(lines: Seq<Seq<char>>, name: Seq<char>, i: int) -> Option<Seq<char>>
    decreases lines.len() - i,
{
    if i < 0 || i >= lines.len() {
        None
    } else {
        match line_value(lines[i], name) {
            Some(v) => if v.len() > 0 {
                Some(v)
            } else {
                first_value(lines, name, i + 1)
            },
            None => first_value(lines, name, i + 1),
        }
    }
}

/// The last value of the first `n` lines.
pub open spec fn last_value(lines: Seq<Seq<char>>, name: Seq<char>, n: int) -> Option<Seq<char>>
    decreases n,
{
    if n <= 0 {
        None
    } else {
        match line_value(lines[n - 1], name) {
            Some(v) => Some(v),
            None => last_value(lines, name, n - 1),
        }
    }
}

/// The image name that a release file gives.
pub open spec fn image_id(o: Option<Seq<char>>) -> Option<Seq<char>> {
    match o {
        Some(s) => first_value(parts(s, '\n'), "IMAGE_ID="@, 0),
        None => None,
    }
}

/// The system's name that a release file gives, where it is not empty.
pub open spec fn pretty_name(o: Option<Seq<char>>) -> Option<Seq<char>> {
    match o {
        Some(s) => match last_value(
            parts(s, '\n'),
            "PRETTY_NAME="@,
            parts(s, '\n').len() as int,
        ) {
            Some(v) => if v.len() > 0 {
                Some(v)
            } else {
                None
            },
            None => None,
        },
        None => None,
    }
}

/// Strips quotes at either end.
fn unquote(s: &str) -> (r: String)
    ensures
        r@ == unquoted(s@),
{
    let v = chars_of(s);
    let n: usize = v.len();
    let mut i: usize = 0;
    assert(v@.subrange(0, n as int) =~= s@);
    while i < n && v[i] == '"'
        invariant
            n == v@.len(),
            i <= n,
            unquoted_start(s@) == unquoted_start(v@.subrange(i as int, n as int)),
        decreases n - i,
    {
        assert(v@.subrange(i as int, n as int).subrange(1, n - i) =~= v@.subrange(
            i + 1,
            n as int,
        ));
        i += 1;
    }
    let rest = string_from_chars(&v, i, n);
    trim_end_char(rest.as_str(), '"')
}

/// Reads the value that a line gives a name.
fn read_line_value(raw: &str, name: &str) -> (r: Option<String>)
    ensures
        opt_text(r) == line_value(raw@, name@),
{
    let c = chars_of(raw);
    let end: usize = if c.len() > 0 && c[c.len() - 1] == '\r' {
        c.len() - 1
    } else {
        c.len()
    };
    let line = string_from_chars(&c, 0, end);
    assert(line@ =~= line_body(raw@));
    if !starts_with(line.as_str(), name) {
        return None;
    }
    let v = chars_of(line.as_str());
    let skip: usize = name.unicode_len();
    let rest = string_from_chars(&v, skip, v.len());
    let bare = unquote(rest.as_str());
    Some(trim(bare.as_str()))
}

/// Reads the image name of a release file.
fn read_image_id(os_release: &Option<String>) -> (r: Option<String>)
    ensures
        opt_text(r) == image_id(opt_text(*os_release)),
{
    let content = match os_release {
        Some(s) => s,
        None => return None,
    };
    let lines = split(content.as_str(), '\n');
    let mut i: usize = 0;
    while i < lines.len()
        invariant
            i <= lines@.len(),
            texts(lines@) == parts(content@, '\n'),
            first_value(texts(lines@), "IMAGE_ID="@, 0) == first_value(
                texts(lines@),
                "IMAGE_ID="@,
                i as int,
            ),
            image_id(opt_text(*os_release)) == first_value(texts(lines@), "IMAGE_ID="@, 0),
        decreases lines@.len() - i,
    {
        assert(texts(lines@)[i as int] == lines@[i as int]@);
        if let Some(v) = read_line_value(lines[i].as_str(), "IMAGE_ID=") {
            if !v.as_str().is_empty() {
                return Some(v);
            }
        }
        i += 1;
    }
    None
}

/// Reads the system's name of a release file.
fn read_pretty_name(os_release: &Option<String>) -> (r: Option<String>)
    ensures
        opt_text(r) == pretty_name(opt_text(*os_release)),
{
    let content = match os_release {
        Some(s) => s,
        None => return None,
    };
    let lines = split(content.as_str(), '\n');
    let mut i: usize = lines.len();
    while i > 0
        invariant
            i <= lines@.len(),
            texts(lines@) == parts(content@, '\n'),
            os_release is Some,
            os_release->0@ == content@,
            last_value(texts(lines@), "PRETTY_NAME="@, lines@.len() as int) == last_value(
                texts(lines@),
                "PRETTY_NAME="@,
                i as int,
            ),
        decreases i,
    {
        i -= 1;
        assert(texts(lines@)[i as int] == lines@[i as int]@);
        if let Some(v) = read_line_value(lines[i].as_str(), "PRETTY_NAME=") {
            if v.as_str().is_empty() {
                return None;
            }
            return Some(v);
        }
    }
    None
}

/// Control groups that only a container has.
pub open spec fn cgroup_tells(s: Seq<char>) -> bool {
    holds(s, "docker"@) || holds(s, "containerd"@) || holds(s, "kubepods"@) || holds(s, "lxc"@)
}

/// A text without surrounding white space, where anything is left of it.
pub open spec fn nonblank(o: Option<Seq<char>>) -> Option<Seq<char>> {
    match o {
        Some(s) => if trimmed(s).len() > 0 {
            Some(trimmed(s))
        } else {
            None
        },
        None => None,
    }
}

/// The image or container that this process runs in: the operator's label, the
/// image's release file, or where something tells a container, the system's
/// image name, its runtime with the system's name, or the runtime alone.
pub open spec fn container_name(c: ContainerClues) -> Option<Seq<char>> {
    let in_cgroup = match c.cgroup {
        Some(s) => cgroup_tells(s@),
        None => false,
    };
    if nonblank(opt_text(c.label)) is Some {
        nonblank(opt_text(c.label))
    } else if nonblank(opt_text(c.release)) is Some {
        nonblank(opt_text(c.release))
    } else if !c.dockerenv && !c.containerenv && !in_cgroup {
        None
    } else if image_id(opt_text(c.os_release)) is Some {
        image_id(opt_text(c.os_release))
    } else if pretty_name(opt_text(c.os_release)) is Some {
        Some(
            (if c.dockerenv {
                "docker"@
            } else if c.containerenv {
                "podman"@
            } else {
                "container"@
            }) + " ("@ + pretty_name(opt_text(c.os_release))->0 + ")"@,
        )
    } else {
        Some(
            if c.dockerenv {
                "docker container"@
            } else if c.containerenv {
                "podman container"@
            } else {
                "container (unknown image)"@
            },
        )
    }
}

fn nonblank_text(o: &Option<String>) -> (r: Option<String>)
    ensures
        opt_text(r) == nonblank(opt_text(*o)),
{
    match o {
        Some(s) => {
            let t = trim(s.as_str());
            if t.as_str().is_empty() {
                None
            } else {
                Some(t)
            }
        },
        None => None,
    }
}

/// Names the image or container that this process runs in.
pub fn detect_container_image(c: &ContainerClues) -> (r: Option<String>)
    ensures
        opt_text(r) == container_name(*c),
{
    let label = nonblank_text(&c.label);
    if label.is_some() {
        return label;
    }
    let release = nonblank_text(&c.release);
    if release.is_some() {
        return release;
    }
    let in_cgroup = match &c.cgroup {
        Some(s) => contains(s.as_str(), "docker") || contains(s.as_str(), "containerd") || contains(
            s.as_str(),
            "kubepods",
        ) || contains(s.as_str(), "lxc"),
        None => false,
    };
    if !c.dockerenv && !c.containerenv && !in_cgroup {
        return None;
    }
    let id = read_image_id(&c.os_release);
    if id.is_some() {
        return id;
    }
    if let Some(name) = read_pretty_name(&c.os_release) {
        let runtime = if c.dockerenv {
            "docker"
        } else if c.containerenv {
            "podman"
        } else {
            "container"
        };
        return Some(join3(runtime, " (", name.as_str()).concat(")"));
    }
    Some(
        owned(
            if c.dockerenv {
                "docker container"
            } else if c.containerenv {
                "podman container"
            } else {
                "container (unknown image)"
            },
        ),
    )
}

} // verus!
