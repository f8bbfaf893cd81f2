//! Which FFmpeg build is linked.
use vstd::prelude::*;

use crate::text::join3;

verus! {

/// The version of the linked FFmpeg and where its build comes from, such as
/// `8.1.2 bundled-vcpkg`; the version may be unknown.
pub open spec fn build_text(version: Option<Seq<char>>, source: Seq<char>) -> Seq<char> {
    (match version {
        Some(v) => v,
        None => "unknown"@,
    }) + " "@ + source
}

/// Describes which FFmpeg build is linked.
pub fn build_string(version: Option<&str>, source: &str) -> (r: String)
    ensures
        r@ == build_text(
            match version {
                Some(v) => Some(v@),
                None => None,
            },
            source@,
        ),
{
    match version {
        Some(v) => join3(v, " ", source),
        None => join3("unknown", " ", source),
    }
}

} // verus!
