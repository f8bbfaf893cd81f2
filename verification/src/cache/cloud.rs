//! The cloud service's cache: entries are addressed by their source URL, and
//! kept for as long as the writer asks.
use vstd::prelude::*;
use vstd::string::*;
use vstd::utf8::is_char_boundary;

use crate::json::{read_text, text_under};
use crate::text::{contains, holds, join2, join3, same, trim, trimmed};

verus! {

/// Whether a key is a source URL rather than an opaque storage key.
pub fn is_source_identity(key: &str) -> (r: bool)
    ensures
        r == holds(key@, "://"@),
{
    contains(key, "://")
}

/// Where to cut a text of more than 200 bytes: the last boundary between
/// characters that is not behind byte 200.
pub open spec fn cut_at(bytes: Seq<u8>, end: int) -> bool {
    &&& 0 <= end <= 200
    &&& is_char_boundary(bytes, end)
    &&& forall|k: int| end < k <= 200 ==> !is_char_boundary(bytes, k)
}

/// Shortens a response body for logging: to 200 bytes at most, never in the
/// middle of a character.
pub fn snippet(text: &str) -> (r: String)
    ensures
        ({
            let bytes = vstd::utf8::encode_utf8(trimmed(text@));
            if bytes.len() <= 200 {
                r@ == trimmed(text@)
            } else {
                exists|end: int, head: Seq<char>| #[trigger]
                    cut_at(bytes, end) && #[trigger] vstd::utf8::encode_utf8(head)
                        == bytes.subrange(0, end) && r@ == head + "..."@
            }
        }),
{
    let t = trim(text);
    let s = t.as_str();
    if s.as_bytes().len() <= 200 {
        return t;
    }
    let mut end: usize = 200;
    proof {
        vstd::utf8::encode_utf8_valid_utf8(s@);
        vstd::utf8::is_char_boundary_start_end_of_seq(s.spec_bytes());
    }
    while end > 0 && !s.is_char_boundary(end)
        invariant
            end <= 200,
            is_char_boundary(s.spec_bytes(), 0),
            forall|k: int| end < k <= 200 ==> !is_char_boundary(s.spec_bytes(), k),
        decreases end,
    {
        end -= 1;
    }
    let (head, _) = s.split_at(end);
    assert(cut_at(s.spec_bytes(), end as int));
    assert(vstd::utf8::encode_utf8(head@) == s.spec_bytes().subrange(0, end as int));
    join2(head, "...")
}

/// What a lookup reply means.
#[derive(Clone, Copy, Debug, PartialEq, Eq, Structural)]
pub enum LookupVerdict {
    /// The reply is the stored media.
    Hit,
    Miss,
    /// The reply cannot be used, which counts as a miss and is worth a warning.
    Unusable,
}

/// Judges a lookup reply: whether its status was a success, whether it is JSON,
/// the text under `status` in it, and whether it reads as stored media.
pub fn judge_lookup(success: bool, is_json: bool, status: Option<&str>, is_media: bool) -> (r:
    LookupVerdict)
    ensures
        r == (if !success || !is_json {
            LookupVerdict::Unusable
        } else if status is Some && status->0@ == "miss"@ {
            LookupVerdict::Miss
        } else if is_media {
            LookupVerdict::Hit
        } else {
            LookupVerdict::Unusable
        }),
{
    if !success || !is_json {
        return LookupVerdict::Unusable;
    }
    if let Some(s) = status {
        if same(s, "miss") {
            return LookupVerdict::Miss;
        }
    }
    if is_media {
        LookupVerdict::Hit
    } else {
        LookupVerdict::Unusable
    }
}

/// Whether a reply is JSON, and the text under `status` in it.
pub open spec fn reply_status(reply: Seq<char>) -> (bool, Option<Seq<char>>) {
    match text_under(reply, "status"@) {
        Ok(status) => (true, status),
        Err(_) => (false, None),
    }
}

/// Reads a lookup reply by its text and judges it.
pub fn judge_reply(success: bool, reply: &str, is_media: bool) -> (r: LookupVerdict)
    ensures
        r == (if !success || !reply_status(reply@).0 {
            LookupVerdict::Unusable
        } else if reply_status(reply@).1 == Some("miss"@) {
            LookupVerdict::Miss
        } else if is_media {
            LookupVerdict::Hit
        } else {
            LookupVerdict::Unusable
        }),
{
    match read_text(reply, "status") {
        Ok(Some(status)) => judge_lookup(success, true, Some(status.as_str()), is_media),
        Ok(None) => judge_lookup(success, true, None, is_media),
        Err(_) => judge_lookup(success, false, None, is_media),
    }
}

/// What is wrong with a health-check reply; nothing where the service answered
/// as it should.
pub open spec fn ping_problem(
    success: bool,
    http_status: Seq<char>,
    status: Option<Seq<char>>,
    message: Option<Seq<char>>,
    body: Seq<char>,
) -> Option<Seq<char>> {
    if !success {
        Some("health check returned HTTP "@ + http_status + " - check the auth token"@)
    } else if status == Some("miss"@) || status == Some("ok"@) {
        None
    } else if status == Some("error"@) {
        Some(
            "health check failed - "@ + match message {
                Some(m) => m,
                None => "unknown"@,
            },
        )
    } else {
        Some("unexpected health check response: "@ + body)
    }
}

/// Judges a health-check reply: its HTTP status, the texts under `status` and
/// `message` in its body, and the body.
pub fn judge_ping(
    success: bool,
    http_status: &str,
    status: Option<&str>,
    message: Option<&str>,
    body: &str,
) -> (r: Result<(), String>)
    ensures
        match (
            r,
            ping_problem(
                success,
                http_status@,
                match status {
                    Some(s) => Some(s@),
                    None => None,
                },
                match message {
                    Some(m) => Some(m@),
                    None => None,
                },
                body@,
            ),
        ) {
            (Ok(_), None) => true,
            (Err(e), Some(m)) => e@ == m,
            _ => false,
        },
{
    if !success {
        return Err(
            join3("health check returned HTTP ", http_status, " - check the auth token"),
        );
    }
    proof {
        reveal_strlit("miss");
        reveal_strlit("ok");
        reveal_strlit("error");
    }
    if let Some(s) = status {
        if same(s, "miss") || same(s, "ok") {
            return Ok(());
        }
        if same(s, "error") {
            let why = match message {
                Some(m) => m,
                None => "unknown",
            };
            return Err(join2("health check failed - ", why));
        }
    }
    Err(join2("unexpected health check response: ", body))
}

} // verus!
