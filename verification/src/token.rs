//! Cache tokens: when a result goes stale, and what its source said of it.
use vstd::prelude::*;

use crate::digest::{base64url, base64url_of, bytes_of_base64url, unbase64url};
use crate::text::{cut, first_char, join3, split_once};

verus! {

/// The character of a hexadecimal digit.
pub open spec fn hex_char(d: int) -> char {
    if d < 10 {
        (48 + d) as char
    } else {
        (87 + d) as char
    }
}

/// The hexadecimal form of a number.
pub open spec fn hexadecimal(n: nat) -> Seq<char>
    decreases n,
{
    if n < 16 {
        seq![hex_char(n as int)]
    } else {
        hexadecimal(n / 16).push(hex_char((n % 16) as int))
    }
}

/// Writes a number in hexadecimal.
fn hex_of(n: u64) -> (r: String)
    ensures
        r@ == hexadecimal(n as nat),
    decreases n,
{
    let d: u8 = (n % 16) as u8;
    let code: u8 = if d < 10 {
        48 + d
    } else {
        87 + d
    };
    let c: char = code as char;
    if n < 16 {
        let mut s = String::new();
        s.push(c);
        assert(s@ =~= hexadecimal(n as nat));
        s
    } else {
        let mut s = hex_of(n / 16);
        s.push(c);
        s
    }
}

/// A token: the second since the epoch at which the result goes stale, in
/// hexadecimal, a colon, and the hints in base64.
pub open spec fn token_text(expires_at: u64, hints: Seq<u8>) -> Seq<char> {
    hexadecimal(expires_at as nat) + ":"@ + base64url(hints)
}

/// Makes the token of a result.
pub fn cache_token(expires_at: u64, hints: &[u8]) -> (r: String)
    ensures
        r@ == token_text(expires_at, hints@),
{
    let epoch = hex_of(expires_at);
    let blob = base64url_of(hints);
    join3(epoch.as_str(), ":", blob.as_str())
}

/// Hexadecimal has no colon.
proof fn lemma_no_colon(n: nat)
    ensures
        forall|i: int| 0 <= i < hexadecimal(n).len() ==> hexadecimal(n)[i] != ':',
    decreases n,
{
    if n >= 16 {
        lemma_no_colon(n / 16);
        let s = hexadecimal(n);
        assert forall|i: int| 0 <= i < s.len() implies s[i] != ':' by {
            if i < s.len() - 1 {
                assert(s[i] == hexadecimal(n / 16)[i]);
            }
        }
    }
}

/// The first colon is behind what has none.
proof fn lemma_first_colon(s: Seq<char>, from: int, at: int)
    requires
        0 <= from <= at < s.len(),
        s[at] == ':',
        forall|i: int| from <= i < at ==> s[i] != ':',
    ensures
        first_char(s, ':', from) == at,
    decreases at - from,
{
    if from < at {
        lemma_first_colon(s, from + 1, at);
    }
}

/// A token is cut at the colon behind its epoch.
proof fn lemma_token_cut(expires_at: u64, hints: Seq<u8>)
    ensures
        cut(token_text(expires_at, hints), ':') == Some(
            (hexadecimal(expires_at as nat), base64url(hints)),
        ),
{
    let (hex, blob) = (hexadecimal(expires_at as nat), base64url(hints));
    let s = token_text(expires_at, hints);
    reveal_strlit(":");
    lemma_no_colon(expires_at as nat);
    assert forall|i: int| 0 <= i < hex.len() implies s[i] != ':' by {
        assert(s[i] == hex[i]);
    }
    assert(s[hex.len() as int] == ':');
    lemma_first_colon(s, 0, hex.len() as int);
    assert(s.subrange(0, hex.len() as int) =~= hex);
    assert(s.subrange(hex.len() as int + 1, s.len() as int) =~= blob);
}

/// Takes the hints out of a token; what a token was made of comes back.
pub fn token_hints(token: &str) -> (r: Option<Vec<u8>>)
    ensures
        match (r, cut(token@, ':')) {
            (Some(v), Some((_, blob))) => unbase64url(blob) == Some(v@),
            (None, Some((_, blob))) => unbase64url(blob) is None,
            (Some(_), None) => false,
            (None, None) => true,
        },
        forall|expires_at: u64, hints: Seq<u8>| #[trigger]
            token_text(expires_at, hints) == token@ ==> match r {
                Some(v) => v@ == hints,
                None => false,
            },
{
    proof {
        assert forall|expires_at: u64, hints: Seq<u8>| #[trigger]
            token_text(expires_at, hints) == token@ implies cut(token@, ':') == Some(
            (hexadecimal(expires_at as nat), base64url(hints)),
        ) by {
            lemma_token_cut(expires_at, hints);
        }
    }
    match split_once(token, ':') {
        Some((_, blob)) => bytes_of_base64url(blob.as_str()),
        None => None,
    }
}

} // verus!
