//! The decisions of the command line: local inputs, and how a missing thumbnail
//! is explained.
use vstd::prelude::*;
use vstd::string::*;

use crate::local_path::PathRule;
use crate::number::{decimal, decimal_of};
use crate::result::ThumbResult;
use crate::text::{
    chars_of,
    contains,
    has_prefix,
    holds,
    join2,
    join3,
    owned,
    starts_with,
    string_from_chars,
};

verus! {

/// An argument that names a local file: it has no scheme, or that of files.
pub fn is_local_input(arg: &str) -> (r: bool)
    ensures
        r == (!holds(arg@, "://"@) || has_prefix(arg@, "file://"@)),
{
    !contains(arg, "://") || starts_with(arg, "file://")
}

/// A path separator by a rule.
pub open spec fn is_separator(c: char, rule: PathRule) -> bool {
    c == '/' || (rule == PathRule::Windows && c == '\\')
}

/// A path that starts with a drive: a letter and a colon.
pub open spec fn has_drive(path: Seq<char>) -> bool {
    path.len() >= 2 && (('a' <= path[0] && path[0] <= 'z') || ('A' <= path[0] && path[0] <= 'Z'))
        && path[1] == ':'
}

/// A path below a directory.
pub open spec fn path_below(dir: Seq<char>, path: Seq<char>, rule: PathRule) -> Seq<char> {
    if dir.len() == 0 || is_separator(dir[dir.len() - 1], rule) {
        dir + path
    } else if rule == PathRule::Windows {
        dir + "\\"@ + path
    } else {
        dir + "/"@ + path
    }
}

/// A path as seen from the current directory. What starts with a separator starts
/// at the root, on Windows at that of the current drive unless it names a share;
/// what starts with a drive there stays as it is.
pub open spec fn path_from(cwd: Seq<char>, path: Seq<char>, rule: PathRule) -> Seq<char> {
    let rooted = path.len() > 0 && is_separator(path[0], rule);
    let share = path.len() > 1 && rooted && is_separator(path[1], rule);
    if rule == PathRule::Posix {
        if rooted {
            path
        } else {
            path_below(cwd, path, rule)
        }
    } else if has_drive(path) || share {
        path
    } else if rooted {
        (if has_drive(cwd) {
            cwd.subrange(0, 2)
        } else {
            Seq::empty()
        }) + path
    } else {
        path_below(cwd, path, rule)
    }
}

/// The URL of an argument: as it is with a web or file scheme, else that of a
/// file, as seen from the current directory.
pub open spec fn promoted(raw: Seq<char>, cwd: Seq<char>, rule: PathRule) -> Seq<char> {
    if has_prefix(raw, "http://"@) || has_prefix(raw, "https://"@) || has_prefix(raw, "file://"@) {
        raw
    } else {
        "file://"@ + path_from(cwd, raw, rule)
    }
}

fn separates(c: char, rule: PathRule) -> (r: bool)
    ensures
        r == is_separator(c, rule),
{
    c == '/' || (rule == PathRule::Windows && c == '\\')
}

fn starts_with_drive(v: &Vec<char>) -> (r: bool)
    ensures
        r == has_drive(v@),
{
    v.len() >= 2 && (('a' <= v[0] && v[0] <= 'z') || ('A' <= v[0] && v[0] <= 'Z')) && v[1] == ':'
}

/// Joins a path to the current directory.
fn join_path(cwd: &str, path: &str, rule: PathRule) -> (r: String)
    ensures
        r@ == path_from(cwd@, path@, rule),
{
    let v = chars_of(path);
    let d = chars_of(cwd);
    let rooted = v.len() > 0 && separates(v[0], rule);
    let share = v.len() > 1 && rooted && separates(v[1], rule);
    if rule == PathRule::Posix {
        if rooted {
            return owned(path);
        }
    } else if starts_with_drive(&v) || share {
        return owned(path);
    } else if rooted {
        if starts_with_drive(&d) {
            return join2(string_from_chars(&d, 0, 2).as_str(), path);
        }
        assert(Seq::<char>::empty() + path@ =~= path@);
        return owned(path);
    }
    if d.len() == 0 || separates(d[d.len() - 1], rule) {
        join2(cwd, path)
    } else if rule == PathRule::Windows {
        join3(cwd, "\\", path)
    } else {
        join3(cwd, "/", path)
    }
}

/// Promotes a bare filesystem path to a `file://` URL.
pub fn promote_url(raw: &str, cwd: &str, rule: PathRule) -> (r: String)
    ensures
        r@ == promoted(raw@, cwd@, rule),
{
    if starts_with(raw, "http://") || starts_with(raw, "https://") || starts_with(raw, "file://") {
        return owned(raw);
    }
    join2("file://", join_path(cwd, raw, rule).as_str())
}

/// Why no thumbnail can be written: there is no result, a placeholder in place
/// of a thumbnail, or no thumbnail at all, with the message as the reason.
pub open spec fn thumb_problem(r: ThumbResult) -> Option<Seq<char>> {
    match r.media {
        None => Some("no result for "@ + r.url@),
        Some(m) => if m.thumbnail@.len() > 0 && m.placeholder@.len() == 0 {
            None
        } else if m.placeholder@.len() > 0 {
            Some("no thumbnail for "@ + r.url@ + " (placeholder: "@ + m.placeholder@ + ")"@)
        } else {
            match r.message {
                Some(msg) => if msg@.len() > 0 {
                    Some("no thumbnail for "@ + r.url@ + " ("@ + msg@ + ")"@)
                } else {
                    Some("no thumbnail for "@ + r.url@)
                },
                None => Some("no thumbnail for "@ + r.url@),
            }
        },
    }
}

/// Explains why no thumbnail can be written, where none can.
pub fn thumb_failure(r: &ThumbResult) -> (why: Option<String>)
    ensures
        match (why, thumb_problem(*r)) {
            (Some(a), Some(b)) => a@ == b,
            (None, None) => true,
            _ => false,
        },
{
    let m = match &r.media {
        Some(m) => m,
        None => return Some(join2("no result for ", r.url.as_str())),
    };
    if m.thumbnail.len() > 0 && m.placeholder.as_str().is_empty() {
        return None;
    }
    let base = join2("no thumbnail for ", r.url.as_str());
    if !m.placeholder.as_str().is_empty() {
        return Some(
            base.concat(" (placeholder: ").concat(m.placeholder.as_str()).concat(")"),
        );
    }
    if let Some(msg) = &r.message {
        if !msg.as_str().is_empty() {
            return Some(base.concat(" (").concat(msg.as_str()).concat(")"));
        }
    }
    Some(base)
}

/// What stands for a long encoded thumbnail in readable output: its length.
pub fn abridged_thumbnail(encoded_len: usize) -> (r: Option<String>)
    ensures
        match r {
            Some(t) => encoded_len > 200 && t@ == "<base64 jpeg data: "@ + decimal(
                encoded_len as nat,
            ) + " bytes>"@,
            None => encoded_len <= 200,
        },
{
    if encoded_len > 200 {
        let n = decimal_of(encoded_len as u64);
        Some(join3("<base64 jpeg data: ", n.as_str(), " bytes>"))
    } else {
        None
    }
}

} // verus!
