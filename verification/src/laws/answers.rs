//! Laws on answers: what a cache spec, a request and an inspection come to.
use vstd::prelude::*;

use crate::cache::dsn::{dsn_check, is_none, link_check, parts_check};
use crate::cli::thumb_problem;
use crate::inspect::{inspects, ImageHeaderView, Inspection, SignatureView};
use crate::laws::texts::{
    blank,
    lacks,
    law_before_first,
    law_parts_of_list,
    law_trimmed,
    listed,
    tight,
    with_between,
};
use crate::media::FileKind;
use crate::result::ThumbResult;
use crate::routes::asks_ndjson;
use crate::text::{ascii_lower_seq, before_first, trimmed};
use crate::tier2::avdecode::{bumped, count_sum};

verus! {

/// The links of a cache spec.
pub open spec fn links(v: Seq<Seq<char>>) -> bool {
    &&& v.len() > 0
    &&& forall|i: int| 0 <= i < v.len() ==> lacks(#[trigger] v[i], '+') && tight(v[i])
}

/// A text without white space at its ends is its own trimmed form.
proof fn lemma_tight(s: Seq<char>)
    requires
        tight(s),
    ensures
        trimmed(s) == s,
{
    let none = Seq::<char>::empty();
    assert(none + s + none =~= s);
    law_trimmed(none, s, none);
}

/// The first refusal ends the check.
proof fn lemma_refused(dsn: Seq<char>, v: Seq<Seq<char>>, i: int, k: int, file: Option<Seq<char>>)
    requires
        links(v),
        0 <= i <= k < v.len(),
        link_check(v[k]) is Err,
        forall|j: int| i <= j < k ==> link_check(#[trigger] v[j]) is Ok,
    ensures
        parts_check(dsn, v, i, file) is Err,
        parts_check(dsn, v, i, file)->Err_0 == link_check(v[k])->Err_0,
    decreases k - i,
{
    assert(tight(v[i]));
    lemma_tight(v[i]);
    if i < k {
        assert(link_check(v[i]) is Ok);
        let f = link_check(v[i])->Ok_0;
        lemma_refused(
            dsn,
            v,
            i + 1,
            k,
            if file is Some {
                file
            } else {
                f
            },
        );
    }
}

/// Once a file is known it stays the one.
proof fn lemma_file_stays(dsn: Seq<char>, v: Seq<Seq<char>>, i: int, file: Seq<char>)
    requires
        links(v),
        0 <= i <= v.len(),
        forall|j: int| i <= j < v.len() ==> link_check(#[trigger] v[j]) is Ok,
    ensures
        parts_check(dsn, v, i, Some(file)) == Ok::<Option<Seq<char>>, Seq<char>>(Some(file)),
    decreases v.len() - i,
{
    if i < v.len() {
        assert(tight(v[i]));
        lemma_tight(v[i]);
        assert(link_check(v[i]) is Ok);
        lemma_file_stays(dsn, v, i + 1, file);
    }
}

/// The first file is found.
proof fn lemma_file_found(dsn: Seq<char>, v: Seq<Seq<char>>, i: int, k: int, path: Seq<char>)
    requires
        links(v),
        0 <= i <= k < v.len(),
        forall|j: int| i <= j < v.len() ==> link_check(#[trigger] v[j]) is Ok,
        link_check(v[k]) == Ok::<Option<Seq<char>>, Seq<char>>(Some(path)),
        forall|j: int|
            i <= j < k ==> link_check(#[trigger] v[j]) == Ok::<Option<Seq<char>>, Seq<char>>(None),
    ensures
        parts_check(dsn, v, i, None) == Ok::<Option<Seq<char>>, Seq<char>>(Some(path)),
    decreases k - i,
{
    assert(tight(v[i]));
    lemma_tight(v[i]);
    assert(link_check(v[i]) is Ok);
    if i < k {
        assert(link_check(v[i]) == Ok::<Option<Seq<char>>, Seq<char>>(None));
        lemma_file_found(dsn, v, i + 1, k, path);
    } else {
        lemma_file_stays(dsn, v, i + 1, path);
    }
}

/// A chain is refused for the first of its links that is.
pub proof fn law_first_refused_link(v: Seq<Seq<char>>, k: int)
    requires
        links(v),
        tight(listed(v, '+')),
        !is_none(listed(v, '+')),
        0 <= k < v.len(),
        link_check(v[k]) is Err,
        forall|j: int| 0 <= j < k ==> link_check(#[trigger] v[j]) is Ok,
    ensures
        dsn_check(listed(v, '+')) is Err,
        dsn_check(listed(v, '+'))->Err_0 == link_check(v[k])->Err_0,
{
    let dsn = listed(v, '+');
    lemma_tight(dsn);
    law_parts_of_list(v, '+');
    lemma_refused(dsn, v, 0, k, None);
}

/// The file of a chain is that of the first of its links that has one.
pub proof fn law_first_file(v: Seq<Seq<char>>, k: int, path: Seq<char>)
    requires
        links(v),
        tight(listed(v, '+')),
        !is_none(listed(v, '+')),
        0 <= k < v.len(),
        forall|j: int| 0 <= j < v.len() ==> link_check(#[trigger] v[j]) is Ok,
        link_check(v[k]) == Ok::<Option<Seq<char>>, Seq<char>>(Some(path)),
        forall|j: int|
            0 <= j < k ==> link_check(#[trigger] v[j]) == Ok::<Option<Seq<char>>, Seq<char>>(None),
    ensures
        dsn_check(listed(v, '+')) == Ok::<Option<Seq<char>>, Seq<char>>(Some(path)),
{
    let dsn = listed(v, '+');
    lemma_tight(dsn);
    law_parts_of_list(v, '+');
    lemma_file_found(dsn, v, 0, k, path);
}

/// A thumbnail can be written if there is one, and it is no placeholder.
pub proof fn law_thumbnail_written(r: ThumbResult)
    ensures
        thumb_problem(r) is None <==> {
            &&& r.media is Some
            &&& r.media->0.thumbnail@.len() > 0
            &&& r.media->0.placeholder@.len() == 0
        },
{
}

/// An entry of an `Accept` header asks for lines of JSON by its type alone: in
/// whichever case, with white space round it and whatever parameters behind it.
pub proof fn law_accepts_lines(l: Seq<char>, m: Seq<char>, r: Seq<char>, params: Seq<char>)
    requires
        blank(l),
        blank(r),
        tight(m),
        lacks(l + m + r, ';'),
    ensures
        asks_ndjson(l + m + r) == asks_ndjson(with_between(l + m + r, ';', params)),
        ascii_lower_seq(m) == "application/x-ndjson"@ ==> asks_ndjson(l + m + r),
        ascii_lower_seq(m) == "application/ndjson"@ ==> asks_ndjson(l + m + r),
        ascii_lower_seq(m) == "application/json"@ ==> !asks_ndjson(l + m + r),
{
    let part = l + m + r;
    law_before_first(part, ';', params);
    law_trimmed(l, m, r);
    assert(before_first(part, ';') == part);
    reveal_strlit("application/x-ndjson");
    reveal_strlit("application/ndjson");
    reveal_strlit("application/json");
    assert("application/json"@.len() == 16);
    assert("application/ndjson"@.len() == 18);
    assert("application/x-ndjson"@.len() == 20);
}

/// Pixels are told of images alone, and of those that are no JPEG by what their
/// header says; of audio it is told whether it is lossless, and of nothing else.
pub proof fn law_inspection(
    i: Inspection,
    prefix: Seq<u8>,
    url: Seq<char>,
    content_type: Option<Seq<char>>,
    signature: Option<SignatureView>,
    header: Option<ImageHeaderView>,
)
    requires
        inspects(i, prefix, url, content_type, signature, header),
    ensures
        i.kind != FileKind::Image ==> i.image is None,
        i.kind == FileKind::Image && prefix.len() > 0 && prefix[0] != 0xFF ==> (match header {
            Some((width, height, color, _)) => {
                &&& i.image is Some
                &&& i.image->0.width == width
                &&& i.image->0.height == height
                &&& i.image->0.alpha == Some(color.has_alpha)
            },
            None => i.image is None,
        }),
        i.audio_lossless is Some <==> i.kind == FileKind::Audio,
        i.kind == FileKind::Audio && (i.extension@ == "flac"@ || i.extension@ == "wav"@)
            ==> i.audio_lossless == Some(true),
        i.kind == FileKind::Audio && (i.extension@ == "mp3"@ || i.extension@ == "ogg"@)
            ==> i.audio_lossless == Some(false),
{
    reveal_strlit("mp3");
    reveal_strlit("ogg");
    reveal_strlit("flac");
    reveal_strlit("wav");
    reveal_strlit("aiff");
    reveal_strlit("aif");
    reveal_strlit("alac");
    reveal_strlit("ape");
    reveal_strlit("wv");
    assert("mp3"@[0] == 'm' && "ogg"@[0] == 'o');
    assert("flac"@[0] == 'f' && "wav"@[0] == 'w' && "aiff"@[0] == 'a' && "aif"@[0] == 'a'
        && "alac"@[0] == 'a' && "ape"@[0] == 'a' && "wv"@[0] == 'w');
}

/// Counts never fall, count each event once as long as there is room, and stay at
/// their end.
pub proof fn law_counts(a: u64, b: u64)
    ensures
        bumped(a) >= a,
        a < u64::MAX ==> bumped(a) == a + 1,
        bumped(u64::MAX) == u64::MAX,
        count_sum(a, b) == count_sum(b, a),
        count_sum(a, b) >= a,
        a + b <= u64::MAX ==> count_sum(a, b) == a + b,
        a < u64::MAX ==> count_sum(a, 1) == bumped(a),
{
}

} // verus!
