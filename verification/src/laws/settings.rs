//! Laws on settings: what is written into them is what they come to.
use vstd::prelude::*;

use crate::cache::dsn::{
    is_link,
    is_opened,
    link_model,
    masked,
    LinkModel,
    OpenedCache,
};
use crate::cache::size::{size_meaning, SizeMeaning};
use crate::checks::lacking;
use crate::cli::{path_from, promoted};
use crate::config::{bool_of, default_scratch, number_of, port_of, set_text};
use crate::laws::requests::lemma_digits;
use crate::laws::sniffing::lemma_behind;
use crate::laws::texts::{
    blank,
    lacks,
    law_before_first,
    law_parts_of_list,
    law_strip_end,
    law_trimmed,
    listed,
    tight,
    with_between,
};
use crate::local_path::PathRule;
use crate::number::{decimal, law_decimal_parses, lemma_decimal};
use crate::text::{before_first, has_prefix, holds, holds_at, lists_text, parts};
use crate::tier3::env_check::{handler_for, HandlerDecl};
use crate::tier3::sandbox::{last_capability, steps_of, Platform, SandboxConfig, SandboxStep};

verus! {

/// A port that is set is the number that was written, if it is one of 16 bits;
/// without it there is a usual one.
pub proof fn law_port(l: Seq<char>, n: nat, r: Seq<char>)
    requires
        blank(l),
        blank(r),
    ensures
        n <= 65535 ==> port_of(Some(l + decimal(n) + r)) == Ok::<int, Seq<char>>(n as int),
        n > 65535 ==> port_of(Some(l + decimal(n) + r)) is Err,
        port_of(None) == Ok::<int, Seq<char>>(3114),
{
    lemma_digits(n);
    law_trimmed(l, decimal(n), r);
    if n <= 65535 {
        law_decimal_parses(n, 65535);
    } else {
        lemma_decimal(n);
        assert(decimal(n)[0] != '+');
    }
}

/// A time that is set is the number that was written, if it is one of 32 bits; unset
/// or blank it is the default.
pub proof fn law_seconds(l: Seq<char>, n: nat, r: Seq<char>, default: int)
    requires
        blank(l),
        blank(r),
    ensures
        n <= u32::MAX ==> number_of(Some(l + decimal(n) + r), default) == Ok::<int, Seq<char>>(
            n as int,
        ),
        n > u32::MAX ==> number_of(Some(l + decimal(n) + r), default) is Err,
        number_of(None, default) == Ok::<int, Seq<char>>(default),
        number_of(Some(l), default) == Ok::<int, Seq<char>>(default),
{
    lemma_digits(n);
    law_trimmed(l, decimal(n), r);
    if n <= u32::MAX {
        law_decimal_parses(n, u32::MAX as int);
    } else {
        lemma_decimal(n);
        assert(decimal(n)[0] != '+');
    }
}

/// A switch is on for `1`, `true` and `yes`, off for `0`, `false`, `no` and where it is
/// not set, and nothing else is accepted.
pub proof fn law_switch(s: Seq<char>)
    ensures
        bool_of(Some(s)) == Ok::<bool, Seq<char>>(true) <==> (s == "1"@ || s == "true"@ || s
            == "yes"@),
        bool_of(Some(s)) is Err <==> !(s == "1"@ || s == "true"@ || s == "yes"@ || s == "0"@ || s
            == "false"@ || s == "no"@),
        bool_of(None) == Ok::<bool, Seq<char>>(false),
{
}

/// A text that is set counts without the white space round it, and a blank one counts
/// as not set.
pub proof fn law_set_text(l: Seq<char>, s: Seq<char>, r: Seq<char>)
    requires
        blank(l),
        blank(r),
        tight(s),
    ensures
        set_text(Some(l + s + r)) == Some(s),
        set_text(Some(l)) is None,
        set_text(None) is None,
{
    law_trimmed(l, s, r);
}

/// Scratch space is below the first temporary directory that is named, whatever
/// slashes that ends with.
pub proof fn law_default_scratch(dir: Seq<char>, slashes: nat, a: Option<Seq<char>>, b: Option<Seq<char>>)
    requires
        dir.len() > 0 ==> dir[dir.len() - 1] != '/',
    ensures
        ({
            let named = Some(dir + Seq::new(slashes, |i: int| '/'));
            let below = dir + "/thumbrella"@;
            &&& default_scratch(named, a, b) == below
            &&& default_scratch(None, named, b) == below
            &&& default_scratch(None, None, named) == below
        }),
        default_scratch(None, None, None) == "/tmp"@ + "/thumbrella"@,
{
    law_strip_end(dir, '/', slashes);
    reveal_strlit("/tmp");
    let tmp = "/tmp"@;
    assert(tmp.len() == 4 && tmp[3] == 'p');
    let none = Seq::new(0, |i: int| '/');
    assert(tmp + none =~= tmp);
    law_strip_end(tmp, '/', 0);
}

/// An argument with a scheme of the web or of files stays as it is.
pub proof fn law_urls_stay(raw: Seq<char>, cwd: Seq<char>, rule: PathRule)
    requires
        has_prefix(raw, "http://"@) || has_prefix(raw, "https://"@) || has_prefix(raw, "file://"@),
    ensures
        promoted(raw, cwd, rule) == raw,
{
}

/// A path is seen from the current directory: one that starts at the root stays, and
/// any other is put below the directory.
pub proof fn law_posix_paths(cwd: Seq<char>, path: Seq<char>)
    requires
        cwd.len() > 0 && cwd[cwd.len() - 1] != '/',
        path.len() > 0,
    ensures
        path[0] == '/' ==> path_from(cwd, path, PathRule::Posix) == path,
        path[0] != '/' ==> path_from(cwd, path, PathRule::Posix) == with_between(cwd, '/', path),
{
    reveal_strlit("/");
    assert("/"@ =~= seq!['/']);
}

/// On Windows a path with a drive stays, one from the root is put on the current
/// drive, and any other below the current directory.
pub proof fn law_windows_paths(letter: char, cwd: Seq<char>, path: Seq<char>)
    requires
        ('a' <= letter && letter <= 'z') || ('A' <= letter && letter <= 'Z'),
        cwd.len() > 2 && cwd[0] == letter && cwd[1] == ':',
        cwd[cwd.len() - 1] != '/' && cwd[cwd.len() - 1] != '\\',
        path.len() > 0,
    ensures
        path_from(cwd, seq![letter, ':'] + path, PathRule::Windows) == seq![letter, ':'] + path,
        (path[0] == '/' || path[0] == '\\') && (path.len() == 1 || (path[1] != '/' && path[1]
            != '\\')) ==> path_from(cwd, path, PathRule::Windows) == seq![letter, ':'] + path,
        path[0] != '/' && path[0] != '\\' && (path.len() == 1 || path[1] != ':') ==> path_from(
            cwd,
            path,
            PathRule::Windows,
        ) == with_between(cwd, '\\', path),
{
    reveal_strlit("\\");
    assert("\\"@ =~= seq!['\\']);
    let drive = seq![letter, ':'] + path;
    assert(drive[0] == letter && drive[1] == ':');
    assert(cwd.subrange(0, 2) =~= seq![letter, ':']);
}

/// What is shown of a connect string is its URL: what stands behind that is secret,
/// and the text that is shown does not depend on it.
pub proof fn law_secret_not_shown(url: Seq<char>, hash: bool, secret: Seq<char>)
    requires
        holds(url, "://"@),
        lacks(url, ',') && lacks(url, '#'),
    ensures
        masked(
            with_between(
                url,
                if hash {
                    '#'
                } else {
                    ','
                },
                secret,
            ),
        ) == url + ",***"@,
        masked(url) == url,
{
    let c = if hash {
        '#'
    } else {
        ','
    };
    let s = with_between(url, c, secret);
    let at = choose|at: int| holds_at(url, "://"@, at);
    assert(s.subrange(at, at + "://"@.len()) =~= url.subrange(at, at + "://"@.len()));
    assert(holds_at(s, "://"@, at));
    law_before_first(url, ',', secret);
    law_before_first(url, '#', secret);
    if hash {
        lemma_behind(url + seq!['#'], secret, ',');
        assert(s =~= (url + seq!['#']) + secret);
        let rest = before_first(secret, ',');
        assert((url + seq!['#']) + rest =~= with_between(url, '#', rest));
        law_before_first(url, '#', rest);
    }
}

/// What has no URL is secret as a whole.
pub proof fn law_bare_secret(secret: Seq<char>)
    requires
        !holds(secret, "://"@),
    ensures
        masked(secret) == "***"@,
{
}

/// A chain opens its links in the order in which they are written, each as it would be
/// opened by itself.
pub proof fn law_chain_in_order(
    links: Seq<Seq<char>>,
    opened: Result<Option<OpenedCache>, String>,
    i: int,
)
    requires
        links.len() >= 2,
        forall|j: int| 0 <= j < links.len() ==> tight(#[trigger] links[j]) && lacks(links[j], '+'),
        is_opened(opened, listed(links, '+')),
        opened is Ok,
        0 <= i < links.len(),
    ensures
        match opened {
            Ok(Some(OpenedCache::Chain(c))) => {
                &&& c.tiers@.len() == links.len()
                &&& is_link(c.tiers@[i], link_model(links[i]))
            },
            _ => false,
        },
{
    let dsn = listed(links, '+');
    let none = Seq::<char>::empty();
    lemma_listed_tight(links, '+');
    assert(none + dsn + none =~= dsn);
    law_trimmed(none, dsn, none);
    assert forall|j: int| 0 <= j < links.len() implies lacks(#[trigger] links[j], '+') by {
        assert(tight(links[j]));
    }
    law_parts_of_list(links, '+');
    assert(tight(links[i]));
    assert(none + links[i] + none =~= links[i]);
    law_trimmed(none, links[i], none);
    lemma_two_parts(links);
}

/// A list of tight texts is tight.
proof fn lemma_listed_tight(v: Seq<Seq<char>>, c: char)
    requires
        v.len() > 0,
        forall|j: int| 0 <= j < v.len() ==> tight(#[trigger] v[j]),
    ensures
        tight(listed(v, c)),
    decreases v.len(),
{
    assert(tight(v[0]));
    if v.len() > 1 {
        let tail = v.subrange(1, v.len() as int);
        assert(forall|j: int| 0 <= j < tail.len() ==> #[trigger] tail[j] == v[j + 1]);
        lemma_listed_tight(tail, c);
        let s = listed(v, c);
        let t = listed(tail, c);
        assert(s[0] == v[0][0]);
        assert(s[s.len() - 1] == t[t.len() - 1]);
    }
}

/// A list of two or more holds its separator, so it is no word for a disabled cache.
proof fn lemma_two_parts(links: Seq<Seq<char>>)
    requires
        links.len() >= 2,
        forall|j: int| 0 <= j < links.len() ==> tight(#[trigger] links[j]) && lacks(links[j], '+'),
    ensures
        listed(links, '+') != "none"@,
        listed(links, '+') != "none:"@,
{
    reveal_strlit("none");
    reveal_strlit("none:");
    let s = listed(links, '+');
    assert(tight(links[0]));
    let n = links[0].len() as int;
    assert(s[n] == '+');
    assert(lacks("none"@, '+') && lacks("none:"@, '+')) by {
        assert("none"@ =~= seq!['n', 'o', 'n', 'e']);
        assert("none:"@ =~= seq!['n', 'o', 'n', 'e', ':']);
    }
}

/// A memory cache is as large as its size says, in bytes or entries, and a hundred
/// megabytes where none is given.
pub proof fn law_memory_link(size: Seq<char>)
    requires
        lacks(size, ','),
    ensures
        ({
            let link = link_model(with_between("mem"@, ':', size));
            match size_meaning(size) {
                SizeMeaning::Bytes(n) => link == LinkModel::MemoryBytes(n),
                SizeMeaning::Entries(n) => link == LinkModel::MemoryEntries(n),
                SizeMeaning::Blank => link == LinkModel::MemoryBytes(104857600),
                SizeMeaning::Refused(_) => link is Refused,
            }
        }),
{
    reveal_strlit("mem");
    let name = "mem"@;
    assert(name =~= seq!['m', 'e', 'm']);
    let none = Seq::<char>::empty();
    assert(none + name + none =~= name);
    law_trimmed(none, name, none);
    law_before_first(name, ':', size);
    assert(!size.contains(','));
}

/// A database cache stands in the file that is named, and holds as many bytes as its
/// size says, if one is given.
pub proof fn law_database_link(path: Seq<char>, size: Seq<char>, n: int)
    requires
        tight(path) && lacks(path, ','),
        tight(size) && lacks(size, ','),
        size_meaning(size) == SizeMeaning::Bytes(n),
    ensures
        link_model(with_between("sqlite"@, ':', with_between(path, ',', size)))
            == LinkModel::Sqlite(path, Some(n)),
        link_model(with_between("sqlite"@, ':', path)) == LinkModel::Sqlite(path, None),
{
    reveal_strlit("sqlite");
    reveal_strlit("mem");
    let name = "sqlite"@;
    assert(name =~= seq!['s', 'q', 'l', 'i', 't', 'e']);
    assert("mem"@.len() == 3);
    let none = Seq::<char>::empty();
    assert(none + name + none =~= name);
    law_trimmed(none, name, none);
    law_before_first(name, ':', with_between(path, ',', size));
    law_before_first(name, ':', path);
    let two = seq![path, size];
    assert(two.subrange(1, 2) =~= seq![size]);
    assert(listed(two.subrange(1, 2), ',') == size);
    assert(listed(two, ',') == with_between(path, ',', size));
    law_parts_of_list(two, ',');
    let one = seq![path];
    law_parts_of_list(one, ',');
    assert(parts(path, ',') == one);
    assert(none + path + none =~= path);
    law_trimmed(none, path, none);
    assert(none + size + none =~= size);
    law_trimmed(none, size, none);
}

/// The columns that a table lacks are those that it should have and has not.
pub proof fn law_lacking(required: Seq<Seq<char>>, columns: Seq<String>, n: int, t: Seq<char>)
    requires
        0 <= n <= required.len(),
    ensures
        lacking(required, columns, n).contains(t) <==> (!lists_text(columns, t) && exists|i: int|
            0 <= i < n && #[trigger] required[i] == t),
    decreases n,
{
    if n > 0 {
        law_lacking(required, columns, n - 1, t);
        let before = lacking(required, columns, n - 1);
        let all = lacking(required, columns, n);
        let last = required[n - 1];
        if all.contains(t) {
            let k = choose|k: int| 0 <= k < all.len() && all[k] == t;
            if k < before.len() {
                assert(before[k] == t);
            } else {
                assert(required[n - 1] == t);
            }
        }
        if !lists_text(columns, t) && exists|i: int| 0 <= i < n && #[trigger] required[i] == t {
            let i = choose|i: int| 0 <= i < n && #[trigger] required[i] == t;
            if i < n - 1 {
                assert(before.contains(t));
                let k = choose|k: int| 0 <= k < before.len() && before[k] == t;
                assert(all[k] == t);
            } else {
                assert(all[before.len() as int] == t);
            }
        }
    }
}

/// The first registered handler that claims an extension gets it.
pub proof fn law_first_handler(
    before: Seq<HandlerDecl>,
    one: HandlerDecl,
    behind: Seq<HandlerDecl>,
    ext: Seq<char>,
)
    requires
        forall|i: int|
            0 <= i < before.len() ==> !lists_text((#[trigger] before[i]).extensions@, ext),
        lists_text(one.extensions@, ext),
    ensures
        handler_for(before + seq![one] + behind, ext, 0) == Some(before.len() as int),
{
    let all = before + seq![one] + behind;
    let k = before.len() as int;
    assert(all[k] == one);
    assert forall|i: int| 0 <= i < k implies !lists_text((#[trigger] all[i]).extensions@, ext) by {
        assert(all[i] == before[i]);
    }
    lemma_handler(all, ext, 0, k);
}

proof fn lemma_handler(all: Seq<HandlerDecl>, ext: Seq<char>, i: int, k: int)
    requires
        0 <= i <= k < all.len(),
        lists_text(all[k].extensions@, ext),
        forall|j: int| i <= j < k ==> !lists_text((#[trigger] all[j]).extensions@, ext),
    ensures
        handler_for(all, ext, i) == Some(k),
    decreases k - i,
{
    if i < k {
        lemma_handler(all, ext, i + 1, k);
    }
}

/// A subprocess is held to every limit that is set: on Linux without privileges and
/// capabilities too, on other systems than Linux and macOS to none.
pub proof fn law_all_limits(c: SandboxConfig)
    ensures
        ({
            let linux = steps_of(Platform::Linux, c);
            let mac = steps_of(Platform::MacOs, c);
            &&& linux.contains(SandboxStep::NoNewPrivileges)
            &&& c.drop_capabilities <==> linux.contains(SandboxStep::DropCapabilities)
            &&& c.max_fds > 0 ==> linux.contains(SandboxStep::OpenFiles(c.max_fds)) && mac.contains(
                SandboxStep::OpenFiles(c.max_fds),
            )
            &&& c.max_memory > 0 ==> linux.contains(SandboxStep::AddressSpace(c.max_memory))
                && mac.contains(SandboxStep::AddressSpace(c.max_memory))
            &&& !c.allow_core_dumps ==> linux.contains(SandboxStep::NoCoreDumps) && mac.contains(
                SandboxStep::NoCoreDumps,
            )
            &&& steps_of(Platform::Other, c).len() == 0
        }),
{
    let linux = steps_of(Platform::Linux, c);
    let mac = steps_of(Platform::MacOs, c);
    assert(linux[0] == SandboxStep::NoNewPrivileges);
    let k = if c.drop_capabilities {
        2int
    } else {
        1int
    };
    if c.drop_capabilities {
        assert(linux[1] == SandboxStep::DropCapabilities);
    }
    let f = if c.max_fds > 0 {
        1int
    } else {
        0int
    };
    if c.max_fds > 0 {
        assert(mac[0] == SandboxStep::OpenFiles(c.max_fds));
        assert(linux[k] == SandboxStep::OpenFiles(c.max_fds));
    }
    if !c.allow_core_dumps {
        assert(mac[f] == SandboxStep::NoCoreDumps);
        assert(linux[k + f] == SandboxStep::NoCoreDumps);
    }
    if c.max_memory > 0 {
        assert(mac[f + 1] == SandboxStep::AddressSpace(c.max_memory));
        assert(linux[k + f + 1] == SandboxStep::AddressSpace(c.max_memory));
    }
}

/// The highest capability is the number that the kernel prints.
pub proof fn law_last_capability(l: Seq<char>, n: u32, r: Seq<char>)
    requires
        blank(l),
        blank(r),
    ensures
        last_capability(Some(l + decimal(n as nat) + r)) == n,
        last_capability(None) == 40,
{
    lemma_digits(n as nat);
    law_trimmed(l, decimal(n as nat), r);
    law_decimal_parses(n as nat, 4294967295);
}

} // verus!
