//! Runtime configuration, from the values of environment variables.
//!
//! | Variable                | Default            | Meaning                              |
//! |-------------------------|--------------------|--------------------------------------|
//! | `TBR_PORT`              | 3114               | HTTP listener port                   |
//! | `TBR_SERVER`            | -                  | server label in trace records        |
//! | `TBR_ALLOW_LOCAL`       | false              | accept local files and hosts         |
//! | `TBR_SCRATCH`           | $TMPDIR/thumbrella | scratch root                         |
//! | `TBR_TIER2`             | -                  | tier-2 connect string                |
//! | `TBR_TIER3`             | -                  | tier-3 connect string                |
//! | `TBR_HANDSHAKE`         | -                  | shared secret on all endpoints       |
//! | `TBR_CACHE`             | -                  | cache backend DSN                    |
//! | `TBR_CACHE_MAX_TTL`     | 604800             | cap on upstream freshness, seconds   |
//! | `TBR_CACHE_DEFAULT_TTL` | 3600               | freshness without upstream hints     |
//! | `TBR_TRACE`             | -                  | trace sink DSN                       |
use vstd::prelude::*;
use vstd::string::*;

use crate::connect::{connect_model, parse_connect_target, ConnectTarget};
use crate::number::{parse_number, parsed};
use crate::text::{opt_text, owned, same, strip_end, trim, trim_end_char, trimmed};

verus! {

/// Full runtime configuration of a server instance.
#[derive(Debug)]
pub struct AppConfig {
    /// HTTP listener port.
    pub port: u16,
    /// Short server identifier included in trace records.
    pub server: Option<String>,
    /// Allow `file://`, bare paths, and localhost or private-network URLs.
    pub allow_local: bool,
    /// Root directory for temporary scratch space.
    pub scratch_dir: String,
    /// Tier-2 and tier-3 connect targets.
    pub tier2: ConnectTarget,
    pub tier3: ConnectTarget,
    /// Shared secret required on all endpoints when set.
    pub handshake: Option<String>,
    /// Cache backend DSN.
    pub cache_url: Option<String>,
    /// Maximum server-side cache TTL in seconds.
    pub cache_max_ttl_secs: u64,
    /// Cache TTL in seconds where upstream gives no freshness hints.
    pub cache_default_ttl_secs: u64,
    /// Trace sink DSN.
    pub trace_url: Option<String>,
    /// URL failure debounce window in seconds.
    pub failure_ttl: u32,
    /// Origin back-off in seconds where no `Retry-After` header is given.
    pub backoff_default: u32,
    /// Largest origin back-off in seconds.
    pub backoff_ceiling: u32,
}

/// The values of the environment variables, where they are set.
#[derive(Debug)]
pub struct EnvVars {
    pub port: Option<String>,
    pub server: Option<String>,
    pub allow_local: Option<String>,
    pub scratch: Option<String>,
    pub tier2: Option<String>,
    pub tier3: Option<String>,
    pub handshake: Option<String>,
    pub cache: Option<String>,
    pub cache_max_ttl: Option<String>,
    pub cache_default_ttl: Option<String>,
    pub trace: Option<String>,
    pub tmpdir: Option<String>,
    pub tmp: Option<String>,
    pub temp: Option<String>,
}

/// What a variable should have held.
#[derive(Clone, Copy, Debug, PartialEq, Eq, Structural)]
pub enum Expected {
    Port,
    Boolean,
    Number,
}

/// A variable that cannot be read.
#[derive(Clone, Copy, Debug, PartialEq, Eq, Structural)]
pub enum Variable {
    Port,
    AllowLocal,
    CacheMaxTtl,
    CacheDefaultTtl,
}

/// Why the configuration is refused.
#[derive(Debug)]
pub struct ConfigError {
    pub variable: Variable,
    pub value: String,
    pub expected: Expected,
}

impl Variable {
    /// The name of the variable.
    pub open spec fn spec_name(self) -> Seq<char> {
        match self {
            Variable::Port => "TBR_PORT"@,
            Variable::AllowLocal => "TBR_ALLOW_LOCAL"@,
            Variable::CacheMaxTtl => "TBR_CACHE_MAX_TTL"@,
            Variable::CacheDefaultTtl => "TBR_CACHE_DEFAULT_TTL"@,
        }
    }

    /// The name of the variable.
    pub fn name(self) -> (r: &'static str)
        ensures
            r@ == self.spec_name(),
    {
        match self {
            Variable::Port => "TBR_PORT",
            Variable::AllowLocal => "TBR_ALLOW_LOCAL",
            Variable::CacheMaxTtl => "TBR_CACHE_MAX_TTL",
            Variable::CacheDefaultTtl => "TBR_CACHE_DEFAULT_TTL",
        }
    }
}

impl Expected {
    /// How the expectation is worded.
    pub open spec fn spec_wording(self) -> Seq<char> {
        match self {
            Expected::Port => "\", which is not a valid port number"@,
            Expected::Boolean => "\", which is not a valid boolean"@,
            Expected::Number => "\", which is not a valid number"@,
        }
    }

    fn wording(self) -> (r: &'static str)
        ensures
            r@ == self.spec_wording(),
    {
        match self {
            Expected::Port => "\", which is not a valid port number",
            Expected::Boolean => "\", which is not a valid boolean",
            Expected::Number => "\", which is not a valid number",
        }
    }
}

impl ConfigError {
    /// The error in words.
    pub fn message(&self) -> (r: String)
        ensures
            r@ == self.variable.spec_name() + " is set to \""@ + self.value@
                + self.expected.spec_wording(),
    {
        owned(self.variable.name()).concat(" is set to \"").concat(self.value.as_str()).concat(
            self.expected.wording(),
        )
    }
}

/// A value without surrounding white space; an empty one counts as unset.
pub open spec fn set_text(o: Option<Seq<char>>) -> Option<Seq<char>> {
    match o {
        Some(s) => if trimmed(s).len() == 0 {
            None
        } else {
            Some(trimmed(s))
        },
        None => None,
    }
}

/// Reads an optional string.
fn env_opt_string(value: Option<String>) -> (r: Option<String>)
    ensures
        opt_text(r) == set_text(opt_text(value)),
{
    match value {
        Some(s) => {
            let t = trim(s.as_str());
            if t.as_str().is_empty() {
                None
            } else {
                Some(t)
            }
        },
        None => None,
    }
}

/// The port that a value names: a 16-bit number, or else an error.
pub open spec fn port_of(value: Option<Seq<char>>) -> Result<int, Seq<char>> {
    match value {
        Some(s) => match parsed(trimmed(s), 65535) {
            Some(p) => Ok(p),
            None => Err(s),
        },
        None => Ok(3114),
    }
}

/// Reads the port.
pub fn env_u16(value: Option<String>) -> (r: Result<u16, ConfigError>)
    ensures
        match (r, port_of(opt_text(value))) {
            (Ok(p), Ok(m)) => p == m,
            (Err(e), Err(s)) => e.variable == Variable::Port && e.value@ == s && e.expected
                == Expected::Port,
            _ => false,
        },
{
    match value {
        Some(s) => {
            let t = trim(s.as_str());
            match parse_number(t.as_str(), 65535) {
                Some(p) => Ok(p as u16),
                None => Err(
                    ConfigError { variable: Variable::Port, value: s, expected: Expected::Port },
                ),
            }
        },
        None => Ok(3114),
    }
}

/// The truth value that a variable holds, `false` where it is unset.
pub open spec fn bool_of(value: Option<Seq<char>>) -> Result<bool, Seq<char>> {
    match value {
        Some(s) => if s == "1"@ || s == "true"@ || s == "yes"@ {
            Ok(true)
        } else if s == "0"@ || s == "false"@ || s == "no"@ {
            Ok(false)
        } else {
            Err(s)
        },
        None => Ok(false),
    }
}

/// Reads a truth value.
pub fn env_bool(value: Option<String>) -> (r: Result<bool, ConfigError>)
    ensures
        match (r, bool_of(opt_text(value))) {
            (Ok(b), Ok(m)) => b == m,
            (Err(e), Err(s)) => e.variable == Variable::AllowLocal && e.value@ == s && e.expected
                == Expected::Boolean,
            _ => false,
        },
{
    match value {
        Some(s) => {
            if same(s.as_str(), "1") || same(s.as_str(), "true") || same(s.as_str(), "yes") {
                Ok(true)
            } else if same(s.as_str(), "0") || same(s.as_str(), "false") || same(s.as_str(), "no") {
                Ok(false)
            } else {
                Err(
                    ConfigError {
                        variable: Variable::AllowLocal,
                        value: s,
                        expected: Expected::Boolean,
                    },
                )
            }
        },
        None => Ok(false),
    }
}

/// The 32-bit number that a variable holds, `default` where it is unset or
/// blank.
pub open spec fn number_of(value: Option<Seq<char>>, default: int) -> Result<int, Seq<char>> {
    match set_text(value) {
        Some(t) => match parsed(t, u32::MAX as int) {
            Some(n) => Ok(n),
            None => Err(t),
        },
        None => Ok(default),
    }
}

/// Reads a number.
pub fn env_opt_u32(value: Option<String>, variable: Variable, default: u64) -> (r: Result<
    u64,
    ConfigError,
>)
    ensures
        match (r, number_of(opt_text(value), default as int)) {
            (Ok(n), Ok(m)) => n == m,
            (Err(e), Err(t)) => e.variable == variable && e.value@ == t && e.expected
                == Expected::Number,
            _ => false,
        },
{
    match env_opt_string(value) {
        Some(t) => match parse_number(t.as_str(), u32::MAX as u64) {
            Some(n) => Ok(n),
            None => Err(ConfigError { variable, value: t, expected: Expected::Number }),
        },
        None => Ok(default),
    }
}

/// The scratch directory without a setting: `thumbrella` under the first
/// temporary directory that is named, `/tmp` where none is.
pub open spec fn default_scratch(
    tmpdir: Option<Seq<char>>,
    tmp: Option<Seq<char>>,
    temp: Option<Seq<char>>,
) -> Seq<char> {
    let base = match (tmpdir, tmp, temp) {
        (Some(t), _, _) => t,
        (None, Some(t), _) => t,
        (None, None, Some(t)) => t,
        (None, None, None) => "/tmp"@,
    };
    strip_end(base, '/') + "/thumbrella"@
}

/// Names the scratch directory without a setting.
pub fn default_scratch_dir(tmpdir: Option<String>, tmp: Option<String>, temp: Option<String>) -> (r:
    String)
    ensures
        r@ == default_scratch(opt_text(tmpdir), opt_text(tmp), opt_text(temp)),
{
    let base = match (tmpdir, tmp, temp) {
        (Some(t), _, _) => t,
        (None, Some(t), _) => t,
        (None, None, Some(t)) => t,
        (None, None, None) => owned("/tmp"),
    };
    trim_end_char(base.as_str(), '/').concat("/thumbrella")
}

/// The first refusal, in the order in which the variables are read.
pub open spec fn first_refusal(
    vars: EnvVars,
) -> Option<(Variable, Seq<char>, Expected)> {
    match port_of(opt_text(vars.port)) {
        Err(s) => Some((Variable::Port, s, Expected::Port)),
        Ok(_) => match bool_of(opt_text(vars.allow_local)) {
            Err(s) => Some((Variable::AllowLocal, s, Expected::Boolean)),
            Ok(_) => match number_of(opt_text(vars.cache_max_ttl), 604800) {
                Err(s) => Some((Variable::CacheMaxTtl, s, Expected::Number)),
                Ok(_) => match number_of(opt_text(vars.cache_default_ttl), 3600) {
                    Err(s) => Some((Variable::CacheDefaultTtl, s, Expected::Number)),
                    Ok(_) => None,
                },
            },
        },
    }
}

/// A target agrees with the connect string in a variable.
pub open spec fn is_target(t: ConnectTarget, value: Option<Seq<char>>) -> bool {
    (opt_text(t.url), t.headers@) == connect_model(set_text(value))
}

/// A configuration agrees with the variables.
pub open spec fn configured(c: AppConfig, vars: EnvVars) -> bool {
    &&& port_of(opt_text(vars.port)) == Ok::<int, Seq<char>>(c.port as int)
    &&& opt_text(c.server) == set_text(opt_text(vars.server))
    &&& bool_of(opt_text(vars.allow_local)) == Ok::<bool, Seq<char>>(c.allow_local)
    &&& c.scratch_dir@ == (match set_text(opt_text(vars.scratch)) {
        Some(s) => s,
        None => default_scratch(opt_text(vars.tmpdir), opt_text(vars.tmp), opt_text(vars.temp)),
    })
    &&& is_target(c.tier2, opt_text(vars.tier2))
    &&& is_target(c.tier3, opt_text(vars.tier3))
    &&& opt_text(c.handshake) == set_text(opt_text(vars.handshake))
    &&& opt_text(c.cache_url) == opt_text(vars.cache)
    &&& number_of(opt_text(vars.cache_max_ttl), 604800) == Ok::<int, Seq<char>>(
        c.cache_max_ttl_secs as int,
    )
    &&& number_of(opt_text(vars.cache_default_ttl), 3600) == Ok::<int, Seq<char>>(
        c.cache_default_ttl_secs as int,
    )
    &&& opt_text(c.trace_url) == opt_text(vars.trace)
    &&& c.failure_ttl == 5 && c.backoff_default == 60 && c.backoff_ceiling == 3600
}

impl AppConfig {
    /// The configuration without any setting, with scratch space in this
    /// directory.
    pub fn defaults(scratch_dir: String) -> (r: AppConfig)
        ensures
            r.port == 3114 && !r.allow_local && r.scratch_dir == scratch_dir,
            r.server is None && r.handshake is None && r.cache_url is None && r.trace_url is None,
            r.tier2.url is None && r.tier2.headers@ == Map::<Seq<char>, Seq<char>>::empty(),
            r.tier3.url is None && r.tier3.headers@ == Map::<Seq<char>, Seq<char>>::empty(),
            r.cache_max_ttl_secs == 604800 && r.cache_default_ttl_secs == 3600,
            r.failure_ttl == 5 && r.backoff_default == 60 && r.backoff_ceiling == 3600,
    {
        AppConfig {
            port: 3114,
            server: None,
            allow_local: false,
            scratch_dir,
            tier2: ConnectTarget::none(),
            tier3: ConnectTarget::none(),
            handshake: None,
            cache_url: None,
            cache_max_ttl_secs: 604800,
            cache_default_ttl_secs: 3600,
            trace_url: None,
            failure_ttl: 5,
            backoff_default: 60,
            backoff_ceiling: 3600,
        }
    }

    /// Builds the configuration from the values of environment variables,
    /// falling back to defaults where they are unset.
    pub fn from_env(vars: EnvVars) -> (r: Result<AppConfig, ConfigError>)
        ensures
            match r {
                Ok(c) => first_refusal(vars) is None && configured(c, vars),
                Err(e) => first_refusal(vars) == Some((e.variable, e.value@, e.expected)),
            },
    {
        let port: u16 = match env_u16(vars.port) {
            Ok(p) => p,
            Err(e) => return Err(e),
        };
        let allow_local = match env_bool(vars.allow_local) {
            Ok(b) => b,
            Err(e) => return Err(e),
        };
        let max_ttl: u64 = match env_opt_u32(vars.cache_max_ttl, Variable::CacheMaxTtl, 604800) {
            Ok(n) => n,
            Err(e) => return Err(e),
        };
        let default_ttl: u64 = match env_opt_u32(
            vars.cache_default_ttl,
            Variable::CacheDefaultTtl,
            3600,
        ) {
            Ok(n) => n,
            Err(e) => return Err(e),
        };
        let scratch_dir = match env_opt_string(vars.scratch) {
            Some(s) => s,
            None => default_scratch_dir(vars.tmpdir, vars.tmp, vars.temp),
        };
        Ok(
            AppConfig {
                port,
                server: env_opt_string(vars.server),
                allow_local,
                scratch_dir,
                tier2: parse_connect_target(env_opt_string(vars.tier2)),
                tier3: parse_connect_target(env_opt_string(vars.tier3)),
                handshake: env_opt_string(vars.handshake),
                cache_url: vars.cache,
                cache_max_ttl_secs: max_ttl,
                cache_default_ttl_secs: default_ttl,
                trace_url: vars.trace,
                failure_ttl: 5,
                backoff_default: 60,
                backoff_ceiling: 3600,
            },
        )
    }
}

} // verus!
