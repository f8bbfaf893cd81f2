//! Limits on the subprocesses that render.
use vstd::prelude::*;

use crate::number::{parse_number, parsed};
use crate::text::{trim, trimmed};

verus! {

/// Limits applied to a subprocess before it runs. Zero means no limit.
#[derive(Clone, Copy, Debug, PartialEq, Eq, Structural)]
pub struct SandboxConfig {
    /// Maximum address space in bytes.
    pub max_memory: u64,
    /// Maximum number of open file descriptors.
    pub max_fds: u64,
    /// Whether the subprocess may produce core dumps.
    pub allow_core_dumps: bool,
    /// Whether all ambient capabilities are dropped.
    pub drop_capabilities: bool,
    /// The tool needs outbound network access.
    pub needs_networking: bool,
}

/// The default limits: 512 MiB of memory and 64 file descriptors.
pub open spec fn strict() -> SandboxConfig {
    SandboxConfig {
        max_memory: 536870912,
        max_fds: 64,
        allow_core_dumps: false,
        drop_capabilities: true,
        needs_networking: false,
    }
}

impl Default for SandboxConfig {
    fn default() -> (r: Self)
        ensures
            r == strict(),
    {
        SandboxConfig {
            max_memory: 536870912,
            max_fds: 64,
            allow_core_dumps: false,
            drop_capabilities: true,
            needs_networking: false,
        }
    }
}

/// A restrictive sandbox, for renderers that only need local files.
pub fn default_strict() -> (r: SandboxConfig)
    ensures
        r == strict(),
{
    SandboxConfig::default()
}

/// Where a subprocess runs.
#[derive(Clone, Copy, Debug, PartialEq, Eq, Structural)]
pub enum Platform {
    Linux,
    MacOs,
    Other,
}

/// A restriction that takes effect in the child process.
#[derive(Clone, Copy, Debug, PartialEq, Eq, Structural)]
pub enum SandboxStep {
    /// No gain of privileges any more.
    NoNewPrivileges,
    /// No capability is left.
    DropCapabilities,
    /// At most this many open files.
    OpenFiles(u64),
    /// No core dump.
    NoCoreDumps,
    /// Core dumps of any size.
    UnlimitedCoreDumps,
    /// At most this much address space.
    AddressSpace(u64),
}

/// The resource limits of a configuration.
pub open spec fn limit_steps(c: SandboxConfig) -> Seq<SandboxStep> {
    (if c.max_fds > 0 {
        seq![SandboxStep::OpenFiles(c.max_fds)]
    } else {
        Seq::empty()
    }) + seq![
        if c.allow_core_dumps {
            SandboxStep::UnlimitedCoreDumps
        } else {
            SandboxStep::NoCoreDumps
        },
    ] + (if c.max_memory > 0 {
        seq![SandboxStep::AddressSpace(c.max_memory)]
    } else {
        Seq::empty()
    })
}

/// What is applied on a platform, in this order: on Linux privileges and
/// capabilities too, on other platforms than Linux and macOS nothing.
pub open spec fn steps_of(p: Platform, c: SandboxConfig) -> Seq<SandboxStep> {
    match p {
        Platform::Linux => seq![SandboxStep::NoNewPrivileges] + (if c.drop_capabilities {
            seq![SandboxStep::DropCapabilities]
        } else {
            Seq::empty()
        }) + limit_steps(c),
        Platform::MacOs => limit_steps(c),
        Platform::Other => Seq::empty(),
    }
}

/// Lists what is applied to a subprocess.
pub fn sandbox_steps(platform: Platform, config: &SandboxConfig) -> (r: Vec<SandboxStep>)
    ensures
        r@ == steps_of(platform, *config),
{
    let mut out: Vec<SandboxStep> = Vec::new();
    if let Platform::Other = platform {
        return out;
    }
    if let Platform::Linux = platform {
        out.push(SandboxStep::NoNewPrivileges);
        if config.drop_capabilities {
            out.push(SandboxStep::DropCapabilities);
        }
    }
    if config.max_fds > 0 {
        out.push(SandboxStep::OpenFiles(config.max_fds));
    }
    out.push(
        if config.allow_core_dumps {
            SandboxStep::UnlimitedCoreDumps
        } else {
            SandboxStep::NoCoreDumps
        },
    );
    if config.max_memory > 0 {
        out.push(SandboxStep::AddressSpace(config.max_memory));
    }
    assert(out@ =~= steps_of(platform, *config));
    out
}

/// On Linux a subprocess can gain no privileges, and this is seen to first; and
/// wherever limits are set, a limit of zero sets none.
pub proof fn law_sandbox_steps(p: Platform, c: SandboxConfig, i: int)
    requires
        0 <= i < steps_of(p, c).len(),
    ensures
        p == Platform::Linux ==> steps_of(p, c)[0] == SandboxStep::NoNewPrivileges,
        steps_of(p, c)[i] matches SandboxStep::OpenFiles(n) ==> n == c.max_fds && n > 0,
        steps_of(p, c)[i] matches SandboxStep::AddressSpace(n) ==> n == c.max_memory && n > 0,
        steps_of(p, c)[i] == SandboxStep::UnlimitedCoreDumps ==> c.allow_core_dumps,
{
}

/// The highest capability, by what the kernel says of it; 40 where it says
/// nothing readable.
pub open spec fn last_capability(text: Option<Seq<char>>) -> u32 {
    match text {
        Some(t) => match parsed(trimmed(t), 4294967295) {
            Some(n) => n as u32,
            None => 40,
        },
        None => 40,
    }
}

/// Reads the highest capability off the kernel's text.
pub fn cap_last_cap(text: Option<&str>) -> (r: u32)
    ensures
        r == last_capability(
            match text {
                Some(t) => Some(t@),
                None => None,
            },
        ),
{
    match text {
        Some(t) => {
            let number: Option<u64> = parse_number(trim(t).as_str(), 4294967295);
            match number {
                Some(n) => n as u32,
                None => 40,
            }
        },
        None => 40,
    }
}

} // verus!
