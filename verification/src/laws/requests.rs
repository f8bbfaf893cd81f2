//! Laws on requests and responses: who is asked, what an answer means, how long it
//! counts.
use vstd::prelude::*;

use crate::address::url_host;
use crate::connect::{auth_token, connect_model, with_segments};
use crate::fetch::{
    age_in,
    authority_end,
    backoff_secs,
    behind_scheme,
    ends_authority,
    first_age,
    fresh_until,
    is_origin,
    law_origin_unique,
    status_meaning,
    StatusMeaning,
};
use crate::laws::texts::{
    blank,
    lacks,
    law_before_first,
    law_parts_of_list,
    law_strip_end,
    law_trimmed,
    listed,
    tight,
    with_between,
};
use crate::local_path::PathRule;
use crate::number::{decimal, is_digit, law_decimal_parses, lemma_decimal};
use crate::routes::{
    accepted_url,
    caller_ip,
    ipv4,
    is_batch_plan,
    octet,
    private_host,
    BatchPlan,
};
use crate::text::{
    ascii_lower_seq,
    first_at,
    has_prefix,
    holds,
    holds_at,
    parts,
};

verus! {

/// The digits of a number, none of which is a letter, a space or a separator.
pub proof fn lemma_digits(n: nat)
    ensures
        decimal(n).len() > 0,
        forall|i: int| 0 <= i < decimal(n).len() ==> is_digit(#[trigger] decimal(n)[i]),
        tight(decimal(n)),
        lacks(decimal(n), '.'),
        lacks(decimal(n), ','),
{
    lemma_decimal(n);
    let s = decimal(n);
    assert(is_digit(s[0]) && is_digit(s[s.len() - 1]));
}

/// Without capital letters nothing changes in lower case.
pub proof fn lemma_lower(s: Seq<char>)
    requires
        forall|i: int| 0 <= i < s.len() ==> !('A' <= #[trigger] s[i] && s[i] <= 'Z'),
    ensures
        ascii_lower_seq(s) == s,
{
    assert(ascii_lower_seq(s) =~= s);
}

/// An origin that asks for rest is left alone as many seconds as it asks for, and for
/// the default time where it does not say or says no number.
pub proof fn law_retry_after(l: Seq<char>, n: nat, r: Seq<char>, default: u64)
    requires
        blank(l),
        blank(r),
        n <= u64::MAX,
    ensures
        backoff_secs(Some(l + decimal(n) + r), default) == n,
        backoff_secs(None, default) == default,
{
    lemma_digits(n);
    law_trimmed(l, decimal(n), r);
    law_decimal_parses(n, u64::MAX as int);
}

/// A date in place of a number of seconds counts as not said.
pub proof fn law_retry_after_date(l: Seq<char>, date: Seq<char>, r: Seq<char>, default: u64)
    requires
        blank(l),
        blank(r),
        tight(date),
        date[0] != '+',
        !is_digit(date[0]),
    ensures
        backoff_secs(Some(l + date + r), default) == default,
{
    law_trimmed(l, date, r);
}

/// The status of an answer: 2xx is success, 304 no change, 429 and 503 a request for
/// rest, and everything else a refusal.
pub proof fn law_status_meaning(s: u16)
    ensures
        status_meaning(s) is Success <==> 200 <= s <= 299,
        status_meaning(s) is NotModified <==> s == 304,
        status_meaning(s) is Overloaded <==> (s == 429 || s == 503),
        s == 404 ==> status_meaning(s) == StatusMeaning::Refused("source not found"@),
        s == 410 ==> status_meaning(s) == StatusMeaning::Refused("source gone"@),
        s == 401 || s == 403 ==> status_meaning(s) == StatusMeaning::Refused("permission denied"@),
{
}

/// A directive that gives an age: `max-age=` and seconds.
pub open spec fn age_directive(l: Seq<char>, n: nat, r: Seq<char>) -> Seq<char> {
    l + ("max-age="@ + decimal(n)) + r
}

/// A directive of another name, written in lower case.
pub open spec fn other_directive(d: Seq<char>) -> bool {
    &&& tight(d)
    &&& !has_prefix(d, "max-age="@)
    &&& forall|i: int| 0 <= i < d.len() ==> !('A' <= #[trigger] d[i] && d[i] <= 'Z')
    &&& lacks(d, ',')
}

/// The age that a directive gives.
proof fn lemma_age(l: Seq<char>, n: nat, r: Seq<char>)
    requires
        blank(l),
        blank(r),
        n <= u64::MAX,
    ensures
        age_in(age_directive(l, n, r)) == Some(n as int),
        lacks(age_directive(l, n, r), ','),
{
    reveal_strlit("max-age=");
    let name = "max-age="@;
    let d = name + decimal(n);
    let s = age_directive(l, n, r);
    lemma_digits(n);
    assert(name.len() == 8);
    assert(name[0] == 'm' && name[1] == 'a' && name[2] == 'x' && name[3] == '-' && name[4] == 'a'
        && name[5] == 'g' && name[6] == 'e' && name[7] == '=');
    assert forall|i: int| 0 <= i < s.len() implies !('A' <= #[trigger] s[i] && s[i] <= 'Z') && s[i]
        != ',' by {
        if i < l.len() {
            assert(s[i] == l[i]);
        } else if i < l.len() + 8 {
            assert(s[i] == name[i - l.len()]);
        } else if i < l.len() + d.len() {
            assert(s[i] == decimal(n)[i - l.len() - 8]);
        } else {
            assert(s[i] == r[i - l.len() - d.len()]);
        }
    }
    lemma_lower(s);
    assert(d[0] == 'm');
    assert(d[d.len() - 1] == decimal(n)[decimal(n).len() - 1]);
    law_trimmed(l, d, r);
    assert(d.subrange(0, 8) =~= name);
    assert(d.subrange(8, d.len() as int) =~= decimal(n));
    let none = Seq::<char>::empty();
    assert(none + decimal(n) + none =~= decimal(n));
    law_trimmed(none, decimal(n), none);
    law_decimal_parses(n, u64::MAX as int);
}

/// Other directives are passed over.
proof fn lemma_first_age(ds: Seq<Seq<char>>, i: int, k: int)
    requires
        0 <= i <= k < ds.len(),
        forall|j: int| i <= j < k ==> other_directive(#[trigger] ds[j]),
        age_in(ds[k]) is Some,
    ensures
        first_age(ds, i) == age_in(ds[k]),
    decreases k - i,
{
    if i < k {
        let d = ds[i];
        assert(other_directive(d));
        lemma_lower(d);
        let none = Seq::<char>::empty();
        assert(none + d + none =~= d);
        law_trimmed(none, d, none);
        lemma_first_age(ds, i + 1, k);
    }
}

/// An answer is fresh for as many seconds as its first `max-age` says, whatever other
/// directives stand before it and whatever follows.
pub proof fn law_max_age(
    headers: Map<Seq<char>, Seq<char>>,
    before: Seq<Seq<char>>,
    l: Seq<char>,
    n: nat,
    r: Seq<char>,
    behind: Seq<Seq<char>>,
    now: u64,
)
    requires
        blank(l),
        blank(r),
        n <= u64::MAX,
        forall|j: int| 0 <= j < before.len() ==> other_directive(#[trigger] before[j]),
        forall|j: int| 0 <= j < behind.len() ==> lacks(#[trigger] behind[j], ','),
        headers.dom().contains("cache-control"@),
        headers["cache-control"@] == listed(before + seq![age_directive(l, n, r)] + behind, ','),
    ensures
        fresh_until(headers, now) == if now + n <= u64::MAX {
            Some((now + n) as u64)
        } else {
            None
        },
{
    let ds = before + seq![age_directive(l, n, r)] + behind;
    let k = before.len() as int;
    lemma_age(l, n, r);
    assert forall|i: int| 0 <= i < ds.len() implies lacks(#[trigger] ds[i], ',') by {
        if i < k {
            assert(ds[i] == before[i]);
        } else if i > k {
            assert(ds[i] == behind[i - k - 1]);
        }
    }
    law_parts_of_list(ds, ',');
    assert(ds[k] == age_directive(l, n, r));
    assert forall|j: int| 0 <= j < k implies other_directive(#[trigger] ds[j]) by {
        assert(ds[j] == before[j]);
    }
    lemma_first_age(ds, 0, k);
}

/// The origin of a URL is its scheme and authority, whatever follows.
pub proof fn law_origin(scheme: Seq<char>, authority: Seq<char>, rest: Seq<char>, origin: Seq<char>)
    requires
        lacks(scheme, ':'),
        forall|i: int|
            0 <= i < authority.len() ==> #[trigger] authority[i] != '/' && authority[i] != '?'
                && authority[i] != '#',
        rest.len() == 0 || rest[0] == '/' || rest[0] == '?' || rest[0] == '#',
        is_origin(scheme + "://"@ + authority + rest, origin),
    ensures
        origin == scheme + "://"@ + authority,
{
    reveal_strlit("://");
    let mark = "://"@;
    assert(mark.len() == 3 && mark[0] == ':' && mark[1] == '/' && mark[2] == '/');
    let front = scheme + mark + authority;
    let url = front + rest;
    let n = scheme.len() as int;
    assert(url.subrange(n, n + 3) =~= mark);
    assert(holds_at(url, mark, n));
    assert forall|j: int| 0 <= j < n implies !holds_at(url, mark, j) by {
        assert(url[j] == scheme[j]);
        if holds_at(url, mark, j) {
            assert(url.subrange(j, j + 3)[0] == mark[0]);
        }
    }
    assert(first_at(url, mark, n));
    assert(behind_scheme(url, n + 3));
    assert forall|i: int| n + 3 <= i < front.len() implies !ends_authority(#[trigger] url[i]) by {
        assert(url[i] == authority[i - n - 3]);
    }
    if rest.len() > 0 {
        assert(url[front.len() as int] == rest[0]);
    }
    lemma_authority(url, n + 3, front.len() as int);
    assert(url.subrange(0, front.len() as int) =~= front);
    assert(is_origin(url, front));
    law_origin_unique(url, origin, front);
}

/// Where an authority ends.
proof fn lemma_authority(url: Seq<char>, at: int, end: int)
    requires
        0 <= at <= end <= url.len(),
        forall|i: int| at <= i < end ==> !ends_authority(#[trigger] url[i]),
        end < url.len() ==> ends_authority(url[end]),
    ensures
        authority_end(url, at) == end,
    decreases end - at,
{
    if at < end {
        lemma_authority(url, at + 1, end);
    }
}

/// An address in dotted form.
pub open spec fn dotted(a: u8, b: u8, c: u8, d: u8) -> Seq<char> {
    listed(
        seq![decimal(a as nat), decimal(b as nat), decimal(c as nat), decimal(d as nat)],
        '.',
    )
}

/// The number of one part of an address.
proof fn lemma_octet(n: u8)
    ensures
        octet(decimal(n as nat)) == Some(n as int),
{
    lemma_digits(n as nat);
    lemma_decimal(n as nat);
    reveal_with_fuel(decimal, 4);
    if n < 10 {
        assert(decimal(n as nat).len() == 1);
    } else if n < 100 {
        assert(decimal(n as nat).len() == 2);
        assert(decimal(n as nat)[0] == decimal((n / 10) as nat)[0]);
    } else {
        assert(decimal(n as nat).len() == 3);
        assert(decimal(n as nat)[0] == decimal((n / 100) as nat)[0]);
    }
}

/// A request may not lead to this machine or into a private network: of the addresses
/// in dotted form those are 10.x.x.x, 127.x.x.x, 172.16.x.x to 172.31.x.x, and
/// 192.168.x.x.
pub proof fn law_private_addresses(a: u8, b: u8, c: u8, d: u8)
    ensures
        private_host(dotted(a, b, c, d)) <==> {
            ||| a == 10
            ||| a == 127
            ||| a == 172 && 16 <= b <= 31
            ||| a == 192 && b == 168
        },
{
    let host = dotted(a, b, c, d);
    let ps = seq![decimal(a as nat), decimal(b as nat), decimal(c as nat), decimal(d as nat)];
    lemma_digits(a as nat);
    lemma_digits(b as nat);
    lemma_digits(c as nat);
    lemma_digits(d as nat);
    assert forall|i: int| 0 <= i < ps.len() implies lacks(#[trigger] ps[i], '.') by {
        assert(i == 0 || i == 1 || i == 2 || i == 3);
    }
    law_parts_of_list(ps, '.');
    lemma_octet(a);
    lemma_octet(b);
    lemma_octet(c);
    lemma_octet(d);
    assert(ipv4(host) == Some((a as int, b as int, c as int, d as int)));
    let rest = listed(ps.subrange(1, 4), '.');
    assert(host == with_between(decimal(a as nat), '.', rest));
    law_before_first(decimal(a as nat), '.', rest);
    assert(host[0] == decimal(a as nat)[0]);
    assert(is_digit(host[0]));
    reveal_strlit("localhost");
    reveal_strlit("127.0.0.1");
    reveal_strlit("::1");
    reveal_strlit("[::1]");
    assert("localhost"@[0] == 'l' && "::1"@[0] == ':' && "[::1]"@[0] == '[');
    assert(ascii_lower_seq(host)[0] == host[0]);
    if host == "127.0.0.1"@ {
        let other = "127.0.0.1"@;
        let front = seq!['1', '2', '7'];
        assert(other =~= with_between(front, '.', seq!['0', '.', '0', '.', '1']));
        law_before_first(front, '.', seq!['0', '.', '0', '.', '1']);
        assert(decimal(a as nat) == front);
        lemma_decimal(127);
        reveal_with_fuel(decimal, 4);
        assert(decimal(127) =~= front);
        lemma_decimal(a as nat);
    }
}

/// The names of this machine are refused in any case of their letters.
pub proof fn law_local_names(host: Seq<char>)
    requires
        ascii_lower_seq(host) == "localhost"@ || host == "::1"@ || host == "[::1]"@,
    ensures
        private_host(host),
{
}

/// A batch is served in its order: its first twelve items are processed and the
/// others set aside, each as it would be accepted by itself; one refused item refuses
/// the batch.
pub proof fn law_batch_in_order(
    plan: BatchPlan,
    urls: Seq<String>,
    allow_local: bool,
    rule: PathRule,
    i: int,
)
    requires
        is_batch_plan(plan, urls, allow_local, rule),
        0 <= i < urls.len(),
    ensures
        match plan {
            BatchPlan::Accepted { jobs, overflow } => {
                let one = accepted_url(urls[i]@, allow_local, url_host(urls[i]@), rule);
                &&& jobs@.len() + overflow@.len() == urls.len()
                &&& jobs@.len() <= 12
                &&& overflow@.len() > 0 ==> jobs@.len() == 12
                &&& i < 12 ==> i < jobs@.len() && one == Ok::<Seq<char>, Seq<char>>(jobs@[i]@)
                &&& i >= 12 ==> one == Ok::<Seq<char>, Seq<char>>(overflow@[i - 12]@)
            },
            BatchPlan::Refused { index, reason } => {
                &&& accepted_url(urls[index as int]@, allow_local, url_host(urls[index as int]@), rule)
                    is Err
                &&& i < index ==> accepted_url(urls[i]@, allow_local, url_host(urls[i]@), rule) is Ok
            },
        },
{
    if let BatchPlan::Accepted { jobs, overflow } = plan {
        let all = jobs@ + overflow@;
        assert(accepted_url(urls[i]@, allow_local, url_host(urls[i]@), rule) == Ok::<
            Seq<char>,
            Seq<char>,
        >(all[i]@));
        if i < jobs@.len() {
            assert(all[i] == jobs@[i]);
        } else {
            assert(all[i] == overflow@[i - jobs@.len()]);
        }
    }
}

/// The caller is the first address that the proxies name, without the space round
/// it; without proxies it is the peer.
pub proof fn law_caller(
    l: Seq<char>,
    first: Seq<char>,
    r: Seq<char>,
    others: Option<Seq<char>>,
    peer: Option<Seq<char>>,
)
    requires
        blank(l),
        blank(r),
        tight(first),
        lacks(first, ','),
    ensures
        ({
            let one = l + first + r;
            let header = match others {
                Some(o) => with_between(one, ',', o),
                None => one,
            };
            caller_ip(Some(header), peer) == Some(first)
        }),
        caller_ip(None, peer) == peer,
{
    let one = l + first + r;
    assert(lacks(one, ',')) by {
        assert forall|i: int| 0 <= i < one.len() implies #[trigger] one[i] != ',' by {
            if i < l.len() {
                assert(one[i] == l[i]);
            } else if i < l.len() + first.len() {
                assert(one[i] == first[i - l.len()]);
            } else {
                assert(one[i] == r[i - l.len() - first.len()]);
            }
        }
    }
    law_trimmed(l, first, r);
    law_before_first(
        one,
        ',',
        if others is Some {
            others->0
        } else {
            Seq::empty()
        },
    );
}

/// A connect string: a URL, slashes at its end, a handshake, and a header.
pub open spec fn connect_string(
    url: Seq<char>,
    slashes: nat,
    handshake: Seq<char>,
    key: Seq<char>,
    value: Seq<char>,
) -> Seq<char> {
    with_between(
        with_between(url + Seq::new(slashes, |i: int| '/'), '#', handshake),
        ',',
        with_between(key, '=', value),
    )
}

/// What a connect string says is what was written into it: the URL without the
/// slashes at its end, the handshake, and the header.
pub proof fn law_connect_string(
    url: Seq<char>,
    slashes: nat,
    handshake: Seq<char>,
    key: Seq<char>,
    value: Seq<char>,
)
    requires
        holds(url, "://"@),
        tight(url) && url[url.len() - 1] != '/',
        lacks(url, ',') && lacks(url, '#'),
        tight(handshake) && lacks(handshake, ','),
        tight(key) && lacks(key, ',') && lacks(key, '='),
        tight(value) && lacks(value, ','),
    ensures
        connect_model(Some(connect_string(url, slashes, handshake, key, value))) == (
            Some(url),
            Map::<Seq<char>, Seq<char>>::empty().insert("x-tbr-handshake"@, handshake).insert(
                key,
                value,
            ),
        ),
{
    let many = Seq::new(slashes, |i: int| '/');
    let base = url + many;
    let front = with_between(base, '#', handshake);
    let seg = with_between(key, '=', value);
    let raw = connect_string(url, slashes, handshake, key, value);
    let none = Seq::<char>::empty();
    let start = Map::<Seq<char>, Seq<char>>::empty().insert("x-tbr-handshake"@, handshake);
    // The scheme is still there.
    let at = choose|at: int| holds_at(url, "://"@, at);
    assert(raw.subrange(at, at + "://"@.len()) =~= url.subrange(at, at + "://"@.len()));
    assert(holds_at(raw, "://"@, at));
    assert(lacks(base, ',') && lacks(base, '#')) by {
        assert forall|i: int| 0 <= i < base.len() implies #[trigger] base[i] != ',' && base[i] != '#' by {
            if i < url.len() {
                assert(base[i] == url[i]);
            } else {
                assert(base[i] == many[i - url.len()]);
            }
        }
    }
    assert(lacks(front, ',')) by {
        assert forall|i: int| 0 <= i < front.len() implies #[trigger] front[i] != ',' by {
            if i < base.len() {
                assert(front[i] == base[i]);
            } else if i > base.len() {
                assert(front[i] == handshake[i - base.len() - 1]);
            }
        }
    }
    law_before_first(front, ',', seg);
    law_before_first(base, '#', handshake);
    assert(lacks(seg, ',')) by {
        assert forall|i: int| 0 <= i < seg.len() implies #[trigger] seg[i] != ',' by {
            if i < key.len() {
                assert(seg[i] == key[i]);
            } else if i > key.len() {
                assert(seg[i] == value[i - key.len() - 1]);
            }
        }
    }
    let segs = seq![seg];
    law_parts_of_list(segs, ',');
    assert(parts(seg, ',') == segs);
    // What is trimmed stays.
    assert(base[0] == url[0]);
    if slashes > 0 {
        assert(base[base.len() - 1] == '/');
    } else {
        assert(base =~= url);
    }
    assert(none + base + none =~= base);
    law_trimmed(none, base, none);
    assert(none + handshake + none =~= handshake);
    law_trimmed(none, handshake, none);
    assert(seg[0] == key[0] && seg[seg.len() - 1] == value[value.len() - 1]);
    assert(none + seg + none =~= seg);
    law_trimmed(none, seg, none);
    assert(none + key + none =~= key);
    law_trimmed(none, key, none);
    assert(none + value + none =~= value);
    law_trimmed(none, value, none);
    law_before_first(key, '=', value);
    law_strip_end(url, '/', slashes);
    assert(with_segments(start, segs, 0) == start);
    assert(segs[0] == seg);
    assert(with_segments(start, segs, 1) == start.insert(key, value));
}

/// A connect string without a URL is an auth token or a handshake, and says nothing
/// of where to connect.
pub proof fn law_bare_connect_string(s: Seq<char>)
    requires
        !holds(s, "://"@),
    ensures
        connect_model(Some(s)) == (
            None::<Seq<char>>,
            if auth_token(s) {
                Map::<Seq<char>, Seq<char>>::empty().insert("Authorization"@, "Bearer "@ + s)
            } else {
                Map::<Seq<char>, Seq<char>>::empty().insert("x-tbr-handshake"@, s)
            },
        ),
        connect_model(None) == (None::<Seq<char>>, Map::<Seq<char>, Seq<char>>::empty()),
{
}

} // verus!
