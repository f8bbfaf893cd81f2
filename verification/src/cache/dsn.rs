//! Cache specs: zero or more backends chained with `+`, fastest first.
//!
//! - `none`: caching is disabled
//! - `mem[:size]`: in memory (default 100 MB)
//! - `sqlite:path[,size]`: persistent
//! - `cloud:connect`: the cloud service's cache
use vstd::prelude::*;
use vstd::string::*;

use crate::cache::size::{
    parse_mem_size,
    refusal_text,
    size_meaning,
    without_end,
    SizeMeaning,
};
use crate::connect::{connect_model, parse_connect_target, ConnectTarget};
use crate::diag::{Validation, ValidationStatus};
use crate::text::{
    ascii_lower_seq,
    contains,
    cut,
    holds,
    join,
    join2,
    join3,
    joined,
    owned,
    parts,
    push_text,
    same,
    split,
    split_once,
    text_before,
    before_first,
    texts,
    trim,
    trimmed,
};

verus! {

/// Default cloud service host.
pub open spec fn default_cloud_host() -> Seq<char> {
    "https://cloud.thumbrella.dev"@
}

/// A cache storage backend has a name for logs.
pub trait CacheBackend {
    /// The name used in logs.
    spec fn backend_name(&self) -> Seq<char>;

    /// The name used in logs.
    fn name(&self) -> (r: &'static str)
        ensures
            r@ == self.backend_name(),
    ;
}

/// How a memory cache is bounded.
#[derive(Clone, Copy, Debug, PartialEq, Eq, Structural)]
pub enum MemBound {
    Bytes(u64),
    Entries(u64),
}

/// A single backend that a spec names.
#[derive(Debug)]
pub enum CacheLink {
    Memory(MemBound),
    /// A database file, and how many bytes it may hold.
    Sqlite { path: String, max_bytes: Option<u64> },
    /// The cloud service's address, and the authorization to send.
    Cloud { base_url: String, auth_header: String },
}

impl CacheBackend for CacheLink {
    open spec fn backend_name(&self) -> Seq<char> {
        match self {
            CacheLink::Memory(_) => "memory"@,
            CacheLink::Sqlite { .. } => "sqlite"@,
            CacheLink::Cloud { .. } => "cloud"@,
        }
    }

    fn name(&self) -> (r: &'static str) {
        match self {
            CacheLink::Memory(_) => "memory",
            CacheLink::Sqlite { .. } => "sqlite",
            CacheLink::Cloud { .. } => "cloud",
        }
    }
}

/// A chain of backends, read in order and written through to all.
#[derive(Debug)]
pub struct ChainCacheBackend {
    pub tiers: Vec<CacheLink>,
}

/// The names of the first `n` backends.
pub open spec fn tier_names(tiers: Seq<CacheLink>) -> Seq<Seq<char>> {
    tiers.map_values(|t: CacheLink| t.backend_name())
}

impl ChainCacheBackend {
    /// A chain of at least two backends, the fastest first.
    pub fn new(tiers: Vec<CacheLink>) -> (r: ChainCacheBackend)
        requires
            tiers@.len() >= 2,
        ensures
            r.tiers == tiers,
    {
        ChainCacheBackend { tiers }
    }

    /// The names of the backends, joined with `+`.
    pub fn describe(&self) -> (r: String)
        ensures
            r@ == joined(tier_names(self.tiers@), "+"@),
    {
        let mut names: Vec<String> = Vec::new();
        let mut i: usize = 0;
        while i < self.tiers.len()
            invariant
                i <= self.tiers@.len(),
                texts(names@) =~= tier_names(self.tiers@).subrange(0, i as int),
            decreases self.tiers@.len() - i,
        {
            assert(tier_names(self.tiers@)[i as int] == self.tiers@[i as int].backend_name());
            push_text(&mut names, owned(self.tiers[i].name()));
            i += 1;
        }
        assert(texts(names@) =~= tier_names(self.tiers@));
        join(&names, "+")
    }
}

impl CacheBackend for ChainCacheBackend {
    open spec fn backend_name(&self) -> Seq<char> {
        "chain"@
    }

    fn name(&self) -> (r: &'static str) {
        "chain"
    }
}

/// What a spec opens: one backend, or a chain of them.
#[derive(Debug)]
pub enum OpenedCache {
    Single(CacheLink),
    Chain(ChainCacheBackend),
}

impl CacheBackend for OpenedCache {
    open spec fn backend_name(&self) -> Seq<char> {
        match self {
            OpenedCache::Single(l) => l.backend_name(),
            OpenedCache::Chain(c) => c.backend_name(),
        }
    }

    fn name(&self) -> (r: &'static str) {
        match self {
            OpenedCache::Single(l) => l.name(),
            OpenedCache::Chain(c) => c.name(),
        }
    }
}

/// A backend by its values, or why there is none.
pub enum LinkModel {
    MemoryBytes(int),
    MemoryEntries(int),
    Sqlite(Seq<char>, Option<int>),
    Cloud(Seq<char>, Seq<char>),
    Refused(Seq<char>),
}

/// Scheme and parameters of a link.
pub open spec fn scheme_of(spec: Seq<char>) -> (Seq<char>, Seq<char>) {
    match cut(spec, ':') {
        Some((s, r)) => (trimmed(s), r),
        None => (trimmed(spec), Seq::empty()),
    }
}

/// Splits a link into scheme and parameters.
fn split_scheme(spec: &str) -> (r: (String, String))
    ensures
        (r.0@, r.1@) == scheme_of(spec@),
{
    match split_once(spec, ':') {
        Some((s, r)) => (trim(s.as_str()), r),
        None => (trim(spec), String::new()),
    }
}

/// The message of a size that is refused.
pub open spec fn size_error(fragment: Seq<char>, meaning: SizeMeaning) -> Seq<char> {
    match meaning {
        SizeMeaning::Refused(why) => refusal_text(
            trimmed(fragment),
            trimmed(without_end(ascii_lower_seq(trimmed(fragment)), 2)),
            why,
        ),
        _ => Seq::empty(),
    }
}

pub open spec fn mem_one_size() -> Seq<char> {
    "mem cache takes a single optional size: 'mem[:size]'"@
}

pub open spec fn sqlite_two_params() -> Seq<char> {
    "sqlite cache takes at most two parameters: 'sqlite:path[,size]'"@
}

pub open spec fn sqlite_needs_path() -> Seq<char> {
    "sqlite cache requires a file path: 'sqlite:path[,size]'"@
}

pub open spec fn sqlite_empty_size() -> Seq<char> {
    "sqlite cache: empty size after ',' - expected e.g. 1gb"@
}

pub open spec fn sqlite_needs_unit() -> Seq<char> {
    "sqlite cache: size must carry a byte unit (kb/mb/gb/tb)"@
}

pub open spec fn unsupported_scheme(scheme: Seq<char>) -> Seq<char> {
    "unsupported cache scheme '"@ + scheme + "' - supported: mem:, sqlite:, cloud:, none"@
}

/// The memory cache that these parameters name.
pub open spec fn mem_model(rest: Seq<char>) -> LinkModel {
    if rest.contains(',') {
        LinkModel::Refused(mem_one_size())
    } else {
        match size_meaning(rest) {
            SizeMeaning::Blank => LinkModel::MemoryBytes(104857600),
            SizeMeaning::Bytes(n) => LinkModel::MemoryBytes(n),
            SizeMeaning::Entries(n) => LinkModel::MemoryEntries(n),
            SizeMeaning::Refused(_) => LinkModel::Refused(
                "mem cache: "@ + size_error(rest, size_meaning(rest)),
            ),
        }
    }
}

/// Path and size of a persistent cache, or why they are refused; `prefix`
/// stands before the message of a refused size.
pub open spec fn sqlite_model(rest: Seq<char>, prefix: Seq<char>) -> LinkModel {
    let params = parts(rest, ',');
    let path = trimmed(params[0]);
    if params.len() > 2 {
        LinkModel::Refused(sqlite_two_params())
    } else if path.len() == 0 {
        LinkModel::Refused(sqlite_needs_path())
    } else if params.len() < 2 {
        LinkModel::Sqlite(path, None)
    } else if trimmed(params[1]).len() == 0 {
        LinkModel::Refused(sqlite_empty_size())
    } else {
        let size = trimmed(params[1]);
        match size_meaning(size) {
            SizeMeaning::Bytes(n) => LinkModel::Sqlite(path, Some(n)),
            SizeMeaning::Refused(_) => LinkModel::Refused(
                prefix + size_error(size, size_meaning(size)),
            ),
            _ => LinkModel::Refused(sqlite_needs_unit()),
        }
    }
}

/// The cloud cache of a connect target: an address, and a required
/// authorization.
pub open spec fn cloud_model(url: Option<Seq<char>>, headers: Map<Seq<char>, Seq<char>>) -> LinkModel {
    let base = match url {
        Some(u) => u,
        None => default_cloud_host(),
    };
    if base.len() == 0 {
        LinkModel::Refused("cloud cache: URL is empty"@)
    } else if !headers.dom().contains("Authorization"@) || headers["Authorization"@].len() == 0 {
        LinkModel::Refused("cloud cache: no Authorization header found in connect string"@)
    } else {
        LinkModel::Cloud(base, headers["Authorization"@])
    }
}

/// The backend that a link names.
pub open spec fn link_model(spec: Seq<char>) -> LinkModel {
    let (scheme, rest) = scheme_of(spec);
    if scheme == "mem"@ {
        mem_model(rest)
    } else if scheme == "sqlite"@ {
        sqlite_model(rest, "sqlite cache: "@)
    } else if scheme == "cloud"@ {
        let (url, headers) = connect_model(Some(rest));
        cloud_model(url, headers)
    } else {
        LinkModel::Refused(unsupported_scheme(scheme))
    }
}

/// An opened link agrees with its model.
pub open spec fn is_link(link: CacheLink, m: LinkModel) -> bool {
    match (link, m) {
        (CacheLink::Memory(MemBound::Bytes(n)), LinkModel::MemoryBytes(k)) => n == k,
        (CacheLink::Memory(MemBound::Entries(n)), LinkModel::MemoryEntries(k)) => n == k,
        (CacheLink::Sqlite { path, max_bytes }, LinkModel::Sqlite(p, b)) => path@ == p && match (
            max_bytes,
            b,
        ) {
            (Some(n), Some(k)) => n == k,
            (None, None) => true,
            _ => false,
        },
        (CacheLink::Cloud { base_url, auth_header }, LinkModel::Cloud(u, a)) => base_url@ == u
            && auth_header@ == a,
        _ => false,
    }
}

/// An outcome of opening a link agrees with its model.
pub open spec fn opens(r: Result<CacheLink, String>, m: LinkModel) -> bool {
    match r {
        Ok(link) => is_link(link, m),
        Err(e) => match m {
            LinkModel::Refused(text) => e@ == text,
            _ => false,
        },
    }
}

/// Whether a text holds a character.
fn has_char(s: &str, c: char) -> (r: bool)
    ensures
        r == s@.contains(c),
{
    let v = crate::text::chars_of(s);
    let i: usize = crate::text::find_char(&v, c, 0);
    if i < v.len() {
        assert(s@[i as int] == c);
        true
    } else {
        false
    }
}

fn open_mem(rest: &str) -> (r: Result<CacheLink, String>)
    ensures
        opens(r, mem_model(rest@)),
{
    if has_char(rest, ',') {
        return Err(owned("mem cache takes a single optional size: 'mem[:size]'"));
    }
    match parse_mem_size(rest) {
        Ok(None) => Ok(CacheLink::Memory(MemBound::Bytes(104857600))),
        Ok(Some((n, kind))) => {
            proof {
                reveal_strlit("bytes");
                reveal_strlit("entries");
                assert("bytes"@.len() == 5 && "entries"@.len() == 7);
            }
            if same(kind, "bytes") {
                Ok(CacheLink::Memory(MemBound::Bytes(n)))
            } else {
                Ok(CacheLink::Memory(MemBound::Entries(n)))
            }
        },
        Err(e) => Err(join2("mem cache: ", e.as_str())),
    }
}

fn open_sqlite(rest: &str, prefix: &str) -> (r: Result<CacheLink, String>)
    ensures
        opens(r, sqlite_model(rest@, prefix@)),
{
    let params = split(rest, ',');
    proof {
        lemma_parts_some(rest@, ',');
        assert(texts(params@)[0] == params@[0]@);
    }
    if params.len() > 2 {
        return Err(owned("sqlite cache takes at most two parameters: 'sqlite:path[,size]'"));
    }
    let path = trim(params[0].as_str());
    if path.as_str().is_empty() {
        return Err(owned("sqlite cache requires a file path: 'sqlite:path[,size]'"));
    }
    if params.len() < 2 {
        return Ok(CacheLink::Sqlite { path, max_bytes: None });
    }
    assert(texts(params@)[1] == params@[1]@);
    let size = trim(params[1].as_str());
    if size.as_str().is_empty() {
        return Err(owned("sqlite cache: empty size after ',' - expected e.g. 1gb"));
    }
    match parse_mem_size(size.as_str()) {
        Ok(Some((n, kind))) => {
            proof {
                reveal_strlit("bytes");
                reveal_strlit("entries");
                assert("bytes"@.len() == 5 && "entries"@.len() == 7);
            }
            if same(kind, "bytes") {
                Ok(CacheLink::Sqlite { path, max_bytes: Some(n) })
            } else {
                Err(owned("sqlite cache: size must carry a byte unit (kb/mb/gb/tb)"))
            }
        },
        Ok(None) => Err(owned("sqlite cache: size must carry a byte unit (kb/mb/gb/tb)")),
        Err(e) => Err(join2(prefix, e.as_str())),
    }
}

/// Splitting gives at least one part.
proof fn lemma_parts_some(s: Seq<char>, c: char)
    ensures
        parts(s, c).len() >= 1,
    decreases s.len(),
{
    let i = crate::text::first_char(s, c, 0);
    if !(i < 0 || i >= s.len()) {
        lemma_parts_some(s.subrange(i + 1, s.len() as int), c);
    }
}

/// The cloud backend of a connect target.
pub fn cloud_backend(target: ConnectTarget) -> (r: Result<CacheLink, String>)
    ensures
        opens(
            r,
            cloud_model(
                match target.url {
                    Some(u) => Some(u@),
                    None => None,
                },
                target.headers@,
            ),
        ),
{
    let base_url = match target.url {
        Some(u) => u,
        None => owned("https://cloud.thumbrella.dev"),
    };
    if base_url.as_str().is_empty() {
        return Err(owned("cloud cache: URL is empty"));
    }
    match target.headers.get("Authorization") {
        Some(a) => {
            if a.is_empty() {
                return Err(owned("cloud cache: no Authorization header found in connect string"));
            }
            Ok(CacheLink::Cloud { base_url, auth_header: owned(a) })
        },
        None => Err(owned("cloud cache: no Authorization header found in connect string")),
    }
}

/// Opens a single link.
pub fn open_link(spec: &str) -> (r: Result<CacheLink, String>)
    ensures
        opens(r, link_model(spec@)),
{
    let (scheme, rest) = split_scheme(spec);
    proof {
        reveal_strlit("mem");
        reveal_strlit("sqlite");
        reveal_strlit("cloud");
    }
    if same(scheme.as_str(), "mem") {
        open_mem(rest.as_str())
    } else if same(scheme.as_str(), "sqlite") {
        open_sqlite(rest.as_str(), "sqlite cache: ")
    } else if same(scheme.as_str(), "cloud") {
        cloud_backend(parse_connect_target(Some(rest)))
    } else {
        Err(
            join3(
                "unsupported cache scheme '",
                scheme.as_str(),
                "' - supported: mem:, sqlite:, cloud:, none",
            ),
        )
    }
}

/// The explicit spellings of a disabled cache.
pub open spec fn is_none(spec: Seq<char>) -> bool {
    spec == "none"@ || spec == "none:"@
}

pub open spec fn empty_spec() -> Seq<char> {
    "empty cache spec - omit TBR_CACHE for the default, or set TBR_CACHE=none to disable"@
}

pub open spec fn empty_link(dsn: Seq<char>) -> Seq<char> {
    "invalid cache spec '"@ + dsn + "' - empty link in chain"@
}

/// The backend of one part of a chain; an empty part is refused.
pub open spec fn part_model(dsn: Seq<char>, part: Seq<char>) -> LinkModel {
    if trimmed(part).len() == 0 {
        LinkModel::Refused(empty_link(dsn))
    } else {
        link_model(trimmed(part))
    }
}

/// Opened links agree with the first `n` parts.
pub open spec fn are_links(links: Seq<CacheLink>, dsn: Seq<char>, ps: Seq<Seq<char>>, n: int) -> bool {
    links.len() == n && forall|i: int|
        0 <= i < n ==> is_link(#[trigger] links[i], part_model(dsn, ps[i]))
}

/// A spec is refused with this message: it is empty, or one of its parts is
/// refused, of which the first counts.
pub open spec fn dsn_refused(dsn: Seq<char>, text: Seq<char>) -> bool {
    let spec = trimmed(dsn);
    &&& !is_none(spec)
    &&& if spec.len() == 0 {
        text == empty_spec()
    } else {
        exists|i: int| #[trigger] first_refused(dsn, parts(spec, '+'), i, text)
    }
}

/// What a spec opens: nothing where caching is disabled, one backend or a chain
/// of those that its parts name, or a refusal.
pub open spec fn is_opened(r: Result<Option<OpenedCache>, String>, dsn: Seq<char>) -> bool {
    let spec = trimmed(dsn);
    let ps = parts(spec, '+');
    match r {
        Ok(None) => is_none(spec),
        Ok(Some(o)) => !is_none(spec) && spec.len() > 0 && match o {
            OpenedCache::Single(l) => are_links(seq![l], dsn, ps, 1) && ps.len() == 1,
            OpenedCache::Chain(c) => are_links(c.tiers@, dsn, ps, ps.len() as int) && ps.len() >= 2,
        },
        Err(e) => dsn_refused(dsn, e@),
    }
}

/// Part `i` is the first that is refused, with this message.
pub open spec fn first_refused(dsn: Seq<char>, ps: Seq<Seq<char>>, i: int, text: Seq<char>) -> bool {
    &&& 0 <= i < ps.len()
    &&& refused_with(part_model(dsn, ps[i]), text)
    &&& forall|j: int| 0 <= j < i ==> !(#[trigger] part_model(dsn, ps[j]) is Refused)
}

/// A model is refused with this message.
pub open spec fn refused_with(m: LinkModel, text: Seq<char>) -> bool {
    match m {
        LinkModel::Refused(t) => t == text,
        _ => false,
    }
}

/// Opens the backends that a cache spec describes.
pub fn open_from_dsn(dsn: &str) -> (r: Result<Option<OpenedCache>, String>)
    ensures
        is_opened(r, dsn@),
{
    let spec = trim(dsn);
    if same(spec.as_str(), "none") || same(spec.as_str(), "none:") {
        return Ok(None);
    }
    if spec.as_str().is_empty() {
        return Err(
            owned(
                "empty cache spec - omit TBR_CACHE for the default, or set TBR_CACHE=none to disable",
            ),
        );
    }
    let ps = split(spec.as_str(), '+');
    proof {
        lemma_parts_some(spec@, '+');
    }
    let mut links: Vec<CacheLink> = Vec::new();
    let mut i: usize = 0;
    while i < ps.len()
        invariant
            i <= ps@.len(),
            spec@ == trimmed(dsn@),
            texts(ps@) == parts(spec@, '+'),
            !is_none(spec@),
            spec@.len() > 0,
            are_links(links@, dsn@, texts(ps@), i as int),
            forall|j: int|
                0 <= j < i ==> !(#[trigger] part_model(dsn@, texts(ps@)[j]) is Refused),
        decreases ps@.len() - i,
    {
        assert(texts(ps@)[i as int] == ps@[i as int]@);
        let link = trim(ps[i].as_str());
        if link.as_str().is_empty() {
            let e = join3("invalid cache spec '", dsn, "' - empty link in chain");
            assert(first_refused(dsn@, parts(trimmed(dsn@), '+'), i as int, e@));
            assert(dsn_refused(dsn@, e@));
            return Err(e);
        }
        match open_link(link.as_str()) {
            Ok(l) => {
                let ghost before = links@;
                links.push(l);
                assert forall|k: int| 0 <= k < i + 1 implies is_link(
                    #[trigger] links@[k],
                    part_model(dsn@, texts(ps@)[k]),
                ) by {
                    if k < i {
                        assert(links@[k] == before[k]);
                    }
                }
            },
            Err(e) => {
                assert(first_refused(dsn@, parts(trimmed(dsn@), '+'), i as int, e@));
                return Err(e);
            },
        }
        i += 1;
    }
    if links.len() == 1 {
        match links.pop() {
            Some(l) => {
                assert(seq![l][0] == l);
                Ok(Some(OpenedCache::Single(l)))
            },
            None => Ok(None),
        }
    } else {
        Ok(Some(OpenedCache::Chain(ChainCacheBackend::new(links))))
    }
}

/// The database file that a link names, or why the link is refused.
pub open spec fn link_check(spec: Seq<char>) -> Result<Option<Seq<char>>, Seq<char>> {
    let (scheme, rest) = scheme_of(spec);
    if scheme == "mem"@ {
        if rest.len() == 0 {
            Ok(None)
        } else if rest.contains(',') {
            Err(mem_one_size())
        } else {
            match size_meaning(rest) {
                SizeMeaning::Refused(_) => Err(size_error(rest, size_meaning(rest))),
                _ => Ok(None),
            }
        }
    } else if scheme == "cloud"@ {
        Ok(None)
    } else if scheme == "sqlite"@ {
        match sqlite_model(rest, Seq::empty()) {
            LinkModel::Refused(e) => Err(e),
            LinkModel::Sqlite(path, _) => Ok(Some(path)),
            _ => Ok(None),
        }
    } else {
        Err(unsupported_scheme(scheme))
    }
}

/// Validates a single link, and names its database file.
pub fn validate_link(spec: &str) -> (r: Result<Option<String>, String>)
    ensures
        match (r, link_check(spec@)) {
            (Ok(Some(p)), Ok(Some(m))) => p@ == m,
            (Ok(None), Ok(None)) => true,
            (Err(e), Err(m)) => e@ == m,
            _ => false,
        },
{
    let (scheme, rest) = split_scheme(spec);
    proof {
        reveal_strlit("mem");
        reveal_strlit("sqlite");
        reveal_strlit("cloud");
        reveal_strlit("");
    }
    if same(scheme.as_str(), "mem") {
        if rest.as_str().is_empty() {
            return Ok(None);
        }
        if has_char(rest.as_str(), ',') {
            return Err(owned("mem cache takes a single optional size: 'mem[:size]'"));
        }
        match parse_mem_size(rest.as_str()) {
            Ok(_) => Ok(None),
            Err(e) => Err(e),
        }
    } else if same(scheme.as_str(), "cloud") {
        Ok(None)
    } else if same(scheme.as_str(), "sqlite") {
        assert(""@ =~= Seq::<char>::empty());
        match open_sqlite(rest.as_str(), "") {
            Ok(CacheLink::Sqlite { path, .. }) => Ok(Some(path)),
            Ok(_) => Ok(None),
            Err(e) => Err(e),
        }
    } else {
        Err(
            join3(
                "unsupported cache scheme '",
                scheme.as_str(),
                "' - supported: mem:, sqlite:, cloud:, none",
            ),
        )
    }
}

/// The check of one part of a chain; an empty part is refused.
pub open spec fn part_check(dsn: Seq<char>, part: Seq<char>) -> Result<Option<Seq<char>>, Seq<char>> {
    if trimmed(part).len() == 0 {
        Err(empty_link(dsn))
    } else {
        link_check(trimmed(part))
    }
}

/// The check of the parts from `i` on, where `file` is the first database file
/// of those before.
pub open spec fn parts_check(
    dsn: Seq<char>,
    ps: Seq<Seq<char>>,
    i: int,
    file: Option<Seq<char>>,
) -> Result<Option<Seq<char>>, Seq<char>>
    decreases ps.len() - i,
{
    if i < 0 || i >= ps.len() {
        Ok(file)
    } else {
        match part_check(dsn, ps[i]) {
            Err(e) => Err(e),
            Ok(f) => parts_check(
                dsn,
                ps,
                i + 1,
                if file is Some {
                    file
                } else {
                    f
                },
            ),
        }
    }
}

/// The first database file of a spec, or its first refusal.
pub open spec fn dsn_check(dsn: Seq<char>) -> Result<Option<Seq<char>>, Seq<char>> {
    let spec = trimmed(dsn);
    if is_none(spec) {
        Ok(None)
    } else if spec.len() == 0 {
        Err(empty_spec())
    } else {
        parts_check(dsn, parts(spec, '+'), 0, None)
    }
}

/// Validates a cache spec, and names the first database file in it, which is
/// then worth checking.
pub fn validate_dsn(dsn: &str) -> (r: (Validation, Option<String>))
    ensures
        match dsn_check(dsn@) {
            Ok(file) => r.0 == (Validation { status: ValidationStatus::Passed, message: None })
                && match (r.1, file) {
                (Some(p), Some(m)) => p@ == m,
                (None, None) => true,
                _ => false,
            },
            Err(e) => r.0.status == ValidationStatus::Error && r.0.message is Some
                && r.0.message->0@ == e && r.1 is None,
        },
{
    let spec = trim(dsn);
    if same(spec.as_str(), "none") || same(spec.as_str(), "none:") {
        return (Validation::ok(), None);
    }
    if spec.as_str().is_empty() {
        return (
            Validation::error(
                owned(
                    "empty cache spec - omit TBR_CACHE for the default, or set TBR_CACHE=none to disable",
                ),
            ),
            None,
        );
    }
    let ps = split(spec.as_str(), '+');
    let mut file: Option<String> = None;
    let mut i: usize = 0;
    while i < ps.len()
        invariant
            i <= ps@.len(),
            texts(ps@) == parts(spec@, '+'),
            dsn_check(dsn@) == parts_check(
                dsn@,
                texts(ps@),
                i as int,
                match file {
                    Some(f) => Some(f@),
                    None => None,
                },
            ),
        decreases ps@.len() - i,
    {
        assert(texts(ps@)[i as int] == ps@[i as int]@);
        let link = trim(ps[i].as_str());
        if link.as_str().is_empty() {
            return (
                Validation::error(join3("invalid cache spec '", dsn, "' - empty link in chain")),
                None,
            );
        }
        match validate_link(link.as_str()) {
            Ok(found) => {
                if file.is_none() {
                    file = found;
                }
            },
            Err(e) => return (Validation::error(e), None),
        }
        i += 1;
    }
    (Validation::ok(), file)
}

/// A connect string fit to be shown: the URL stays, anything secret behind it
/// or instead of it is masked.
pub open spec fn masked(connect: Seq<char>) -> Seq<char> {
    if !holds(connect, "://"@) {
        "***"@
    } else {
        let url = before_first(before_first(connect, ','), '#');
        if url.len() == connect.len() {
            connect
        } else {
            url + ",***"@
        }
    }
}

/// Masks the secrets of a connect string.
pub fn mask_connect_string(connect: &str) -> (r: String)
    ensures
        r@ == masked(connect@),
{
    if !contains(connect, "://") {
        return owned("***");
    }
    let url = text_before(connect, ',');
    let url = text_before(url.as_str(), '#');
    if url.as_str().unicode_len() == connect.unicode_len() {
        owned(connect)
    } else {
        join2(url.as_str(), ",***")
    }
}

/// A link in words.
pub open spec fn link_text(spec: Seq<char>) -> Seq<char> {
    let (scheme, rest) = scheme_of(spec);
    if scheme == "mem"@ {
        if rest.len() == 0 {
            "mem (default 100 MB)"@
        } else {
            "mem:"@ + rest
        }
    } else if scheme == "sqlite"@ {
        let params = parts(rest, ',');
        let size = if params.len() > 1 {
            trimmed(params[1])
        } else {
            Seq::empty()
        };
        if size.len() == 0 {
            "sqlite:"@ + trimmed(params[0])
        } else {
            "sqlite:"@ + trimmed(params[0]) + " (max "@ + size + ")"@
        }
    } else if scheme == "cloud"@ {
        "cloud:"@ + masked(rest)
    } else {
        spec
    }
}

/// Describes a single link.
pub fn describe_link(spec: &str) -> (r: String)
    ensures
        r@ == link_text(spec@),
{
    let (scheme, rest) = split_scheme(spec);
    proof {
        reveal_strlit("mem");
        reveal_strlit("sqlite");
        reveal_strlit("cloud");
    }
    if same(scheme.as_str(), "mem") {
        if rest.as_str().is_empty() {
            owned("mem (default 100 MB)")
        } else {
            join2("mem:", rest.as_str())
        }
    } else if same(scheme.as_str(), "sqlite") {
        let params = split(rest.as_str(), ',');
        proof {
            lemma_parts_some(rest@, ',');
            assert(texts(params@)[0] == params@[0]@);
        }
        let path = trim(params[0].as_str());
        let size = if params.len() > 1 {
            assert(texts(params@)[1] == params@[1]@);
            trim(params[1].as_str())
        } else {
            String::new()
        };
        if size.as_str().is_empty() {
            join2("sqlite:", path.as_str())
        } else {
            join3("sqlite:", path.as_str(), " (max ").concat(size.as_str()).concat(")")
        }
    } else if same(scheme.as_str(), "cloud") {
        let shown = mask_connect_string(rest.as_str());
        join2("cloud:", shown.as_str())
    } else {
        owned(spec)
    }
}

/// A cache spec in words.
pub open spec fn dsn_text(dsn: Seq<char>) -> Seq<char> {
    let spec = trimmed(dsn);
    if spec.len() == 0 {
        "mem (default 100 MB)"@
    } else if is_none(spec) {
        "none (cache disabled)"@
    } else {
        joined(parts(spec, '+').map_values(|p: Seq<char>| link_text(trimmed(p))), "+"@)
    }
}

/// Summarises a cache spec for reports, with secrets masked.
pub fn describe_dsn(dsn: &str) -> (r: String)
    ensures
        r@ == dsn_text(dsn@),
{
    let spec = trim(dsn);
    if spec.as_str().is_empty() {
        return owned("mem (default 100 MB)");
    }
    if same(spec.as_str(), "none") || same(spec.as_str(), "none:") {
        return owned("none (cache disabled)");
    }
    let ps = split(spec.as_str(), '+');
    let mut shown: Vec<String> = Vec::new();
    let ghost want = parts(spec@, '+').map_values(|p: Seq<char>| link_text(trimmed(p)));
    let mut i: usize = 0;
    while i < ps.len()
        invariant
            i <= ps@.len(),
            texts(ps@) == parts(spec@, '+'),
            want == parts(spec@, '+').map_values(|p: Seq<char>| link_text(trimmed(p))),
            texts(shown@) =~= want.subrange(0, i as int),
        decreases ps@.len() - i,
    {
        assert(texts(ps@)[i as int] == ps@[i as int]@);
        let link = trim(ps[i].as_str());
        assert(want[i as int] == link_text(trimmed(texts(ps@)[i as int])));
        push_text(&mut shown, describe_link(link.as_str()));
        i += 1;
    }
    assert(texts(shown@) =~= want);
    join(&shown, "+")
}

} // verus!
