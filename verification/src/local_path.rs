//! Local filesystem paths and their `file://` URL form.
//!
//! The canonical form is `file://`, a `/`, then an absolute path:
//!
//! ```text
//! POSIX      /data/a.png    ->  file:///data/a.png
//! Windows    C:/data/a.png  ->  file:///C:/data/a.png
//!            C:\data\a.png  ->  file:///C:/data/a.png
//! ```
//!
//! On Windows the `/` behind the scheme belongs to the URL; on POSIX the same
//! text is a genuine absolute path. So each direction comes in two forms.
use vstd::prelude::*;
use vstd::string::*;

use crate::text::{chars_of, has_prefix, opt_text, owned, starts_with};

verus! {

/// Whose rules tell a path: those of POSIX systems, or those of Windows.
#[derive(Clone, Copy, Debug, PartialEq, Eq, Structural)]
pub enum PathRule {
    Posix,
    Windows,
}

/// An absolute POSIX path.
pub open spec fn posix_absolute(path: Seq<char>) -> bool {
    path.len() > 0 && path[0] == '/'
}

/// The path portion of a `file://` URL for an absolute POSIX path: the path itself.
/// A relative path has none.
pub open spec fn posix_in_url(path: Seq<char>) -> Option<Seq<char>> {
    if posix_absolute(path) {
        Some(path)
    } else {
        None
    }
}

/// The part of a URL behind `file://`; nothing for another scheme.
pub open spec fn posix_native(url: Seq<char>) -> Option<Seq<char>> {
    if has_prefix(url, "file://"@) {
        Some(url.subrange("file://"@.len() as int, url.len() as int))
    } else {
        None
    }
}

/// The path portion of a `file://` URL for an absolute POSIX path; nothing for
/// a relative one.
pub fn path_for_file_url(path: &str) -> (r: Option<String>)
    ensures
        opt_text(r) == posix_in_url(path@),
{
    let v = chars_of(path);
    if v.len() == 0 || v[0] != '/' {
        return None;
    }
    Some(owned(path))
}

/// The POSIX path of a `file://` URL; nothing for another scheme.
pub fn path_from_file_url(url: &str) -> (r: Option<&str>)
    ensures
        match (r, posix_native(url@)) {
            (Some(p), Some(m)) => p@ == m,
            (None, None) => true,
            _ => false,
        },
{
    proof {
        reveal_strlit("file://");
    }
    if !starts_with(url, "file://") {
        return None;
    }
    let n: usize = url.unicode_len();
    Some(url.substring_char(7, n))
}

/// An absolute Windows drive path: letter, colon, separator.
pub open spec fn drive_absolute(path: Seq<char>) -> bool {
    path.len() >= 3 && (('a' <= path[0] && path[0] <= 'z') || ('A' <= path[0] && path[0] <= 'Z'))
        && path[1] == ':' && (path[2] == '/' || path[2] == '\\')
}

fn is_drive_absolute(v: &Vec<char>, from: usize) -> (r: bool)
    requires
        from <= v@.len(),
    ensures
        r == drive_absolute(v@.subrange(from as int, v@.len() as int)),
{
    v.len() - from >= 3 && (('a' <= v[from] && v[from] <= 'z') || ('A' <= v[from] && v[from] <= 'Z'))
        && v[from + 1] == ':' && (v[from + 2] == '/' || v[from + 2] == '\\')
}

/// The path with forward slashes only.
pub open spec fn forward_slashes(path: Seq<char>) -> Seq<char> {
    path.map_values(
        |c: char|
            if c == '\\' {
                '/'
            } else {
                c
            },
    )
}

/// The path portion of a `file://` URL for an absolute Windows drive path: a slash
/// and the path with forward slashes. Any other path has none.
pub open spec fn windows_in_url(path: Seq<char>) -> Option<Seq<char>> {
    if drive_absolute(path) {
        Some(seq!['/'] + forward_slashes(path))
    } else {
        None
    }
}

/// The path portion of a `file://` URL for an absolute Windows drive path. A
/// share path has no such form, and a path without a drive counts as relative.
pub fn windows_path_for_file_url(path: &str) -> (r: Option<String>)
    ensures
        opt_text(r) == windows_in_url(path@),
{
    let v = chars_of(path);
    assert(v@.subrange(0, v@.len() as int) =~= path@);
    if !is_drive_absolute(&v, 0) {
        return None;
    }
    let mut out = String::new();
    out.push('/');
    let mut i: usize = 0;
    while i < v.len()
        invariant
            i <= v@.len(),
            out@ =~= seq!['/'] + forward_slashes(v@.subrange(0, i as int)),
        decreases v@.len() - i,
    {
        out.push(
            if v[i] == '\\' {
                '/'
            } else {
                v[i]
            },
        );
        i += 1;
        assert(out@ =~= seq!['/'] + forward_slashes(v@.subrange(0, i as int)));
    }
    Some(out)
}

/// The Windows path of the part of a URL behind `file://`: a slash before an
/// absolute drive path belongs to the URL.
pub open spec fn windows_path(rest: Seq<char>) -> Seq<char> {
    if rest.len() > 0 && rest[0] == '/' && drive_absolute(rest.subrange(1, rest.len() as int)) {
        rest.subrange(1, rest.len() as int)
    } else {
        rest
    }
}

/// The Windows path of a `file://` URL; nothing for another scheme.
pub open spec fn windows_native(url: Seq<char>) -> Option<Seq<char>> {
    match posix_native(url) {
        Some(rest) => Some(windows_path(rest)),
        None => None,
    }
}

/// The Windows path of a `file://` URL; nothing for another scheme.
pub fn windows_path_from_file_url(url: &str) -> (r: Option<&str>)
    ensures
        match (r, windows_native(url@)) {
            (Some(p), Some(m)) => p@ == m,
            (None, None) => true,
            _ => false,
        },
{
    let rest = match path_from_file_url(url) {
        Some(p) => p,
        None => return None,
    };
    let v = chars_of(rest);
    if v.len() > 0 && v[0] == '/' && is_drive_absolute(&v, 1) {
        return Some(rest.substring_char(1, v.len()));
    }
    Some(rest)
}

/// The path portion of a `file://` URL for an absolute path, by a rule.
pub open spec fn in_url(path: Seq<char>, rule: PathRule) -> Option<Seq<char>> {
    match rule {
        PathRule::Posix => posix_in_url(path),
        PathRule::Windows => windows_in_url(path),
    }
}

/// The path portion of a `file://` URL for an absolute path, by a rule; nothing for
/// a path that is relative by it.
pub fn url_path(path: &str, rule: PathRule) -> (r: Option<String>)
    ensures
        opt_text(r) == in_url(path@, rule),
{
    match rule {
        PathRule::Posix => path_for_file_url(path),
        PathRule::Windows => windows_path_for_file_url(path),
    }
}

/// The native path of a `file://` URL, by a rule.
pub open spec fn native_of(url: Seq<char>, rule: PathRule) -> Option<Seq<char>> {
    match rule {
        PathRule::Posix => posix_native(url),
        PathRule::Windows => windows_native(url),
    }
}

/// The native path of a `file://` URL, by a rule; nothing for another scheme.
pub fn native_path(url: &str, rule: PathRule) -> (r: Option<&str>)
    ensures
        match (r, native_of(url@, rule)) {
            (Some(p), Some(m)) => p@ == m,
            (None, None) => true,
            _ => false,
        },
{
    match rule {
        PathRule::Posix => path_from_file_url(url),
        PathRule::Windows => windows_path_from_file_url(url),
    }
}

proof fn lemma_behind_file_scheme(rest: Seq<char>)
    ensures
        posix_native("file://"@ + rest) == Some(rest),
{
    let url = "file://"@ + rest;
    let n = "file://"@.len() as int;
    assert(url.subrange(0, n) =~= "file://"@);
    assert(url.subrange(n, url.len() as int) =~= rest);
}

/// An absolute POSIX path survives the way into a `file://` URL and back.
pub proof fn law_posix_round_trip(path: Seq<char>)
    requires
        posix_absolute(path),
    ensures
        posix_in_url(path) is Some,
        posix_native("file://"@ + posix_in_url(path)->0) == Some(path),
{
    lemma_behind_file_scheme(path);
}

/// An absolute Windows drive path survives the way into a `file://` URL and back,
/// with its separators written as forward slashes.
pub proof fn law_windows_round_trip(path: Seq<char>)
    requires
        drive_absolute(path),
    ensures
        windows_in_url(path) is Some,
        windows_native("file://"@ + windows_in_url(path)->0) == Some(forward_slashes(path)),
{
    let rest = seq!['/'] + forward_slashes(path);
    lemma_behind_file_scheme(rest);
    assert(rest.subrange(1, rest.len() as int) =~= forward_slashes(path));
}

} // verus!
