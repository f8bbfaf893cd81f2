//! SHA-256 digests and URL-safe base64.
use vstd::prelude::*;

verus! {

/// The SHA-256 digest of the bytes.
pub uninterp spec fn sha256(data: Seq<u8>) -> Seq<u8>;

/// `sha2::Sha256::digest`: the digest of the bytes, which is 32 bytes long.
#[verifier::external_body]
fn sha256_digest(data: &[u8]) -> (r: Vec<u8>)
    ensures
        r@ == sha256(data@),
        r@.len() == 32,
{
    <sha2::Sha256 as sha2::Digest>::digest(data).to_vec()
}

/// Computes the SHA-256 digest of the bytes.
pub fn sha256_of(data: &[u8]) -> (r: Vec<u8>)
    ensures
        r@ == sha256(data@),
        r@.len() == 32,
{
    sha256_digest(data)
}

/// The characters of the URL-safe alphabet: `A`-`Z`, `a`-`z`, `0`-`9`, `-`, `_`.
pub open spec fn base64url_char(v: int) -> char {
    if v < 26 {
        (65 + v) as char
    } else if v < 52 {
        (71 + v) as char
    } else if v < 62 {
        (v - 4) as char
    } else if v == 62 {
        '-'
    } else {
        '_'
    }
}

/// Six-bit group `i` of the bytes read as one row of bits, filled up with zeros.
pub open spec fn six_bits(data: Seq<u8>, i: int) -> int {
    let at = i * 6 / 8;
    let pair = data[at] * 256 + (if at + 1 < data.len() {
        data[at + 1] as int
    } else {
        0
    });
    let skip = i * 6 % 8;
    if skip == 0 {
        pair / 1024 % 64
    } else if skip == 2 {
        pair / 256 % 64
    } else if skip == 4 {
        pair / 64 % 64
    } else {
        pair / 16 % 64
    }
}

/// The URL-safe base64 form without padding: one character per six-bit group.
pub open spec fn base64url(data: Seq<u8>) -> Seq<char> {
    Seq::new(
        ((data.len() * 4 + 2) / 3) as nat,
        |i: int| base64url_char(six_bits(data, i)),
    )
}

/// `base64` with the `URL_SAFE_NO_PAD` engine: one character of the URL-safe
/// alphabet per six bits, no padding.
#[verifier::external_body]
fn base64_encode(data: &[u8]) -> (r: String)
    ensures
        r@ == base64url(data@),
{
    base64::Engine::encode(&base64::engine::general_purpose::URL_SAFE_NO_PAD, data)
}

/// Encodes bytes as URL-safe base64 without padding.
pub fn base64url_of(data: &[u8]) -> (r: String)
    ensures
        r@ == base64url(data@),
{
    base64_encode(data)
}

/// The bytes that a text stands for as URL-safe base64 without padding; nothing
/// where it is none.
pub uninterp spec fn unbase64url(s: Seq<char>) -> Option<Seq<u8>>;

/// `base64` with the `URL_SAFE_NO_PAD` engine: the bytes that a text stands for.
/// What was encoded comes back.
#[verifier::external_body]
fn base64_decode(s: &str) -> (r: Option<Vec<u8>>)
    ensures
        match r {
            Some(v) => unbase64url(s@) == Some(v@),
            None => unbase64url(s@) is None,
        },
        forall|data: Seq<u8>| #[trigger]
            base64url(data) == s@ ==> match r {
                Some(v) => v@ == data,
                None => false,
            },
{
    base64::Engine::decode(&base64::engine::general_purpose::URL_SAFE_NO_PAD, s).ok()
}

/// Decodes URL-safe base64 without padding.
pub fn bytes_of_base64url(s: &str) -> (r: Option<Vec<u8>>)
    ensures
        match r {
            Some(v) => unbase64url(s@) == Some(v@),
            None => unbase64url(s@) is None,
        },
        forall|data: Seq<u8>| #[trigger]
            base64url(data) == s@ ==> unbase64url(s@) == Some(data),
{
    base64_decode(s)
}

} // verus!
