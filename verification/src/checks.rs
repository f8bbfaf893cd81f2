//! What the checks of a server's dependencies come to.
use vstd::prelude::*;

use crate::address::{parse_url, url_parts, UrlParts};
use crate::diag::{Validation, ValidationStatus};
use crate::number::{decimal, decimal_of};
use crate::text::{
    join,
    join2,
    join3,
    joined,
    list_has,
    lists_text,
    owned,
    push_text,
    strip_end,
    texts,
    trim_end_char,
};

verus! {

/// A check failed with this message.
pub open spec fn fails_with(v: Validation, message: Seq<char>) -> bool {
    v.status == ValidationStatus::Error && v.message is Some && v.message->0@ == message
}

/// A check passed.
pub open spec fn passes(v: Validation) -> bool {
    v.status == ValidationStatus::Passed && v.message is None
}

/// What came of reaching for a handoff target.
#[derive(Debug)]
pub enum TargetProbe {
    BadUrl { error: String },
    NoHost,
    NoPort,
    NoAddress,
    DnsFailed { error: String },
    Unreachable { host: String, port: u16, error: String },
    Reached,
}

/// Where a handoff target is reached: its host and port; or what is wrong with
/// its URL.
pub fn address_in(parts: Result<UrlParts, String>) -> (r: Result<(String, u16), TargetProbe>)
    ensures
        match parts {
            Err(e) => r matches Err(TargetProbe::BadUrl { error }) && error == e,
            Ok(p) => match (p.host, p.port) {
                (None, _) => r == Err::<(String, u16), TargetProbe>(TargetProbe::NoHost),
                (Some(_), None) => r == Err::<(String, u16), TargetProbe>(TargetProbe::NoPort),
                (Some(h), Some(n)) => r == Ok::<(String, u16), TargetProbe>((h, n)),
            },
        },
{
    match parts {
        Ok(p) => match (p.host, p.port) {
            (Some(host), Some(port)) => Ok((host, port)),
            (Some(_), None) => Err(TargetProbe::NoPort),
            (None, _) => Err(TargetProbe::NoHost),
        },
        Err(error) => Err(TargetProbe::BadUrl { error }),
    }
}

/// Where the URL of a handoff target leads.
pub fn target_address(url: &str) -> (r: Result<(String, u16), TargetProbe>)
    ensures
        match (url_parts(url@), r) {
            (Err(e), Err(TargetProbe::BadUrl { error })) => error@ == e,
            (Ok((None, _, _)), Err(TargetProbe::NoHost)) => true,
            (Ok((Some(_), None, _)), Err(TargetProbe::NoPort)) => true,
            (Ok((Some(h), Some(n), _)), Ok((host, port))) => host@ == h && port == n,
            _ => false,
        },
{
    address_in(parse_url(url))
}

/// What counts of a check at startup: only that it passed.
pub fn confirmed(check: Option<Validation>) -> (r: Option<Validation>)
    ensures
        r == (match check {
            Some(v) => if v.status == ValidationStatus::Passed {
                Some(v)
            } else {
                None
            },
            None => None,
        }),
{
    match check {
        Some(v) => if v.status == ValidationStatus::Passed {
            Some(v)
        } else {
            None
        },
        None => None,
    }
}

/// What the check of a handoff target comes to: without headers it cannot be
/// authorised, and is not reached for.
pub open spec fn target_verdict(v: Validation, has_headers: bool, p: TargetProbe) -> bool {
    if !has_headers {
        v.status == ValidationStatus::Warn && v.message is Some && v.message->0@
            == "no auth headers configured for handoff target; add x-tbr-handshake=... or a Bearer token via the connect string"@
    } else {
        match p {
            TargetProbe::BadUrl { error } => fails_with(v, "invalid handoff URL: "@ + error@),
            TargetProbe::NoHost => fails_with(v, "handoff URL has no host"@),
            TargetProbe::NoPort => fails_with(v, "handoff URL has no usable port"@),
            TargetProbe::NoAddress => fails_with(v, "handoff host resolved to no addresses"@),
            TargetProbe::DnsFailed { error } => fails_with(
                v,
                "handoff DNS resolve failed: "@ + error@,
            ),
            TargetProbe::Unreachable { host, port, error } => fails_with(
                v,
                "handoff target unreachable ("@ + host@ + ":"@ + decimal(port as nat) + "): "@
                    + error@,
            ),
            TargetProbe::Reached => passes(v),
        }
    }
}

/// Judges a handoff target.
pub fn judge_handoff_target(has_headers: bool, probe: TargetProbe) -> (r: Validation)
    ensures
        target_verdict(r, has_headers, probe),
{
    if !has_headers {
        return Validation::warn(
            owned(
                "no auth headers configured for handoff target; add x-tbr-handshake=... or a Bearer token via the connect string",
            ),
        );
    }
    match probe {
        TargetProbe::BadUrl { error } => Validation::error(
            join2("invalid handoff URL: ", error.as_str()),
        ),
        TargetProbe::NoHost => Validation::error(owned("handoff URL has no host")),
        TargetProbe::NoPort => Validation::error(owned("handoff URL has no usable port")),
        TargetProbe::NoAddress => Validation::error(
            owned("handoff host resolved to no addresses"),
        ),
        TargetProbe::DnsFailed { error } => Validation::error(
            join2("handoff DNS resolve failed: ", error.as_str()),
        ),
        TargetProbe::Unreachable { host, port, error } => {
            let mut s = join3("handoff target unreachable (", host.as_str(), ":");
            s = join3(s.as_str(), decimal_of(port as u64).as_str(), "): ");
            Validation::error(join2(s.as_str(), error.as_str()))
        },
        TargetProbe::Reached => Validation::ok(),
    }
}

/// The health endpoint of a server.
pub fn health_endpoint(base_url: &str) -> (r: String)
    ensures
        r@ == strip_end(base_url@, '/') + "/health"@,
{
    join2(trim_end_char(base_url, '/').as_str(), "/health")
}

/// Judges the answer of a health endpoint: the HTTP status where it is no
/// success, and what the answer says of the token. Only the cloud server says
/// anything of it.
pub fn judge_health(failed_status: Option<u16>, token: Option<bool>) -> (r: Validation)
    ensures
        match failed_status {
            Some(s) => fails_with(r, "health returned HTTP "@ + decimal(s as nat)),
            None => if token == Some(false) {
                fails_with(r, "token rejected by cloud server (token: false)"@)
            } else {
                passes(r)
            },
        },
{
    if let Some(s) = failed_status {
        return Validation::error(join2("health returned HTTP ", decimal_of(s as u64).as_str()));
    }
    match token {
        Some(false) => Validation::error(owned("token rejected by cloud server (token: false)")),
        _ => Validation::ok(),
    }
}

/// Those of the listed columns that a table lacks.
pub open spec fn lacking(required: Seq<Seq<char>>, columns: Seq<String>, n: int) -> Seq<Seq<char>>
    decreases n,
{
    if n <= 0 {
        Seq::empty()
    } else if lists_text(columns, required[n - 1]) {
        lacking(required, columns, n - 1)
    } else {
        lacking(required, columns, n - 1).push(required[n - 1])
    }
}

/// The columns that the cache table needs.
pub open spec fn cache_columns() -> Seq<Seq<char>> {
    seq![
        "cache_key"@,
        "value"@,
        "size_bytes"@,
        "last_accessed_at"@,
        "access_count"@,
        "render_cost"@,
        "expires_at"@,
    ]
}

/// What the check of a cache database comes to, by its integrity check and the
/// columns of its table.
pub open spec fn schema_verdict(v: Validation, integrity: Seq<char>, columns: Seq<String>) -> bool {
    let missing = lacking(cache_columns(), columns, 7);
    if integrity != "ok"@ {
        fails_with(v, "integrity_check: "@ + integrity)
    } else if columns.len() == 0 {
        fails_with(v, "table 'thumbrella' not found \u{2014} may be a different database"@)
    } else if missing.len() > 0 {
        fails_with(
            v,
            "schema mismatch \u{2014} missing column(s): "@ + joined(missing, ", "@),
        )
    } else {
        passes(v)
    }
}

fn note_column(columns: &Vec<String>, name: &str, missing: &mut Vec<String>)
    ensures
        texts(final(missing)@) == (if lists_text(columns@, name@) {
            texts(old(missing)@)
        } else {
            texts(old(missing)@).push(name@)
        }),
{
    if !list_has(columns, name) {
        push_text(missing, owned(name));
    }
}

/// Judges a cache database.
pub fn judge_schema(integrity: &str, columns: &Vec<String>) -> (r: Validation)
    ensures
        schema_verdict(r, integrity@, columns@),
{
    if !crate::text::same(integrity, "ok") {
        return Validation::error(join2("integrity_check: ", integrity));
    }
    if columns.len() == 0 {
        return Validation::error(
            owned("table 'thumbrella' not found \u{2014} may be a different database"),
        );
    }
    let mut missing: Vec<String> = Vec::new();
    note_column(columns, "cache_key", &mut missing);
    note_column(columns, "value", &mut missing);
    note_column(columns, "size_bytes", &mut missing);
    note_column(columns, "last_accessed_at", &mut missing);
    note_column(columns, "access_count", &mut missing);
    note_column(columns, "render_cost", &mut missing);
    note_column(columns, "expires_at", &mut missing);
    proof {
        reveal_with_fuel(lacking, 8);
        assert(texts(missing@) =~= lacking(cache_columns(), columns@, 7));
        assert(texts(missing@).len() == missing@.len());
    }
    if missing.len() > 0 {
        return Validation::error(
            join2(
                "schema mismatch \u{2014} missing column(s): ",
                join(&missing, ", ").as_str(),
            ),
        );
    }
    Validation::ok()
}

} // verus!
