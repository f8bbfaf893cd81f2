//! JSON as its parser reads it.
use vstd::prelude::*;

use crate::text::opt_text;

verus! {

/// The members `first` and `second` of each item of the list `list` in a JSON
/// object, where they are unsigned numbers, and nothing where there is no such
/// list; or why the text is no JSON.
pub uninterp spec fn listed_pairs(
    json: Seq<u8>,
    list: Seq<char>,
    first: Seq<char>,
    second: Seq<char>,
) -> Result<Option<Seq<(Option<u64>, Option<u64>)>>, Seq<char>>;

/// The pairs by their values.
pub open spec fn opt_pairs(o: Option<Vec<(Option<u64>, Option<u64>)>>) -> Option<
    Seq<(Option<u64>, Option<u64>)>,
> {
    match o {
        Some(v) => Some(v@),
        None => None,
    }
}

/// `serde_json::from_slice` into a `serde_json::Value`, `as_array` on a member of
/// it, and `as_u64` on two members of each item; or the text of the parser's
/// error.
#[verifier::external_body]
pub(crate) fn read_pairs(json: &[u8], list: &str, first: &str, second: &str) -> (r: Result<
    Option<Vec<(Option<u64>, Option<u64>)>>,
    String,
>)
    ensures
        match (r, listed_pairs(json@, list@, first@, second@)) {
            (Ok(v), Ok(m)) => opt_pairs(v) == m,
            (Err(e), Err(m)) => e@ == m,
            _ => false,
        },
{
    let value: serde_json::Value = serde_json::from_slice(json).map_err(|e| e.to_string())?;
    let pair = |item: &serde_json::Value| (item[first].as_u64(), item[second].as_u64());
    Ok(value[list].as_array().map(|items| items.iter().map(pair).collect()))
}

/// The text under a key of a JSON object, where there is a text; or why the text
/// is no JSON.
pub uninterp spec fn text_under(json: Seq<char>, key: Seq<char>) -> Result<
    Option<Seq<char>>,
    Seq<char>,
>;

/// `serde_json::from_str` into a `serde_json::Value`, and `as_str` on a member of
/// it; or the text of the parser's error.
#[verifier::external_body]
pub(crate) fn read_text(json: &str, key: &str) -> (r: Result<Option<String>, String>)
    ensures
        match (r, text_under(json@, key@)) {
            (Ok(v), Ok(m)) => opt_text(v) == m,
            (Err(e), Err(m)) => e@ == m,
            _ => false,
        },
{
    let value: serde_json::Value = serde_json::from_str(json).map_err(|e| e.to_string())?;
    Ok(value[key].as_str().map(|t| t.to_string()))
}

/// Keys and values by their texts.
pub open spec fn pair_texts(pairs: Seq<(String, String)>) -> Seq<(Seq<char>, Seq<char>)> {
    pairs.map_values(|p: (String, String)| (p.0@, p.1@))
}

/// The members of a JSON object with their values as JSON text, none where the
/// JSON is no object; nothing where the text is no JSON.
pub uninterp spec fn members_of(json: Seq<char>) -> Option<Seq<(Seq<char>, Seq<char>)>>;

/// `serde_json::from_str` into a `serde_json::Value`, and the members of its
/// `as_object`, each value written as `to_string` writes it.
#[verifier::external_body]
pub(crate) fn read_members(json: &str) -> (r: Option<Vec<(String, String)>>)
    ensures
        match (r, members_of(json@)) {
            (Some(v), Some(m)) => pair_texts(v@) == m,
            (None, None) => true,
            _ => false,
        },
{
    let value: serde_json::Value = serde_json::from_str(json).ok()?;
    let pairs = value.as_object().into_iter().flatten();
    Some(pairs.map(|(key, member)| (key.clone(), member.to_string())).collect())
}

} // verus!
