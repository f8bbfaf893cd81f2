//! Laws on what a file is taken for: by its first bytes, its URL, and the header
//! that came with it.
use vstd::prelude::*;

use crate::inspect::{
    kind_of_mime,
    sniffed,
    svg_tag_at,
    url_ext,
    MatcherGroup,
};
use crate::laws::texts::{
    blank,
    lacks,
    law_after_last,
    law_before_first,
    law_trimmed,
    tight,
    with_between,
};
use crate::media::{canonical_ext, ext_of_mime, kind_of_ext, mime_of_ext, FileKind};
use crate::text::{ascii_lower_seq, before_first};

verus! {

/// What may follow on the path of a URL: nothing, or a query or fragment.
pub open spec fn behind_path(s: Seq<char>) -> bool {
    s.len() == 0 || s[0] == '?' || s[0] == '#'
}

/// The URL of a file: `front/stem.ext`, and what follows on the path.
pub open spec fn file_url(
    front: Seq<char>,
    stem: Seq<char>,
    ext: Seq<char>,
    behind: Seq<char>,
) -> Seq<char> {
    with_between(front, '/', with_between(stem, '.', ext)) + behind
}

/// The pieces are what their names say: only the front holds slashes, and none a
/// question mark or number sign; the extension has no dot and is not empty.
pub open spec fn names_file(
    front: Seq<char>,
    stem: Seq<char>,
    ext: Seq<char>,
    behind: Seq<char>,
) -> bool {
    &&& lacks(front, '?') && lacks(front, '#')
    &&& lacks(stem, '?') && lacks(stem, '#') && lacks(stem, '/')
    &&& lacks(ext, '?') && lacks(ext, '#') && lacks(ext, '/') && lacks(ext, '.')
    &&& ext.len() > 0
    &&& behind_path(behind)
}

/// The path of a URL ends where the query or fragment starts.
proof fn lemma_path(path: Seq<char>, behind: Seq<char>)
    requires
        lacks(path, '?'),
        lacks(path, '#'),
        behind_path(behind),
    ensures
        before_first(before_first(path + behind, '?'), '#') == path,
{
    if behind.len() == 0 {
        assert(path + behind =~= path);
        law_before_first(path, '?', Seq::empty());
        law_before_first(path, '#', Seq::empty());
    } else {
        let rest = behind.subrange(1, behind.len() as int);
        if behind[0] == '?' {
            assert(path + behind =~= with_between(path, '?', rest));
            law_before_first(path, '?', rest);
            law_before_first(path, '#', Seq::empty());
        } else {
            assert(path + behind =~= with_between(path, '#', rest));
            let query = before_first(rest, '?');
            lemma_query(path, rest);
            law_before_first(path, '#', query);
        }
    }
}

/// A question mark in a fragment leaves the path and the front of the fragment.
proof fn lemma_query(path: Seq<char>, rest: Seq<char>)
    requires
        lacks(path, '?'),
    ensures
        before_first(with_between(path, '#', rest), '?') == with_between(
            path,
            '#',
            before_first(rest, '?'),
        ),
{
    let s = with_between(path, '#', rest);
    let front = path + seq!['#'];
    assert(lacks(front, '?')) by {
        assert forall|i: int| 0 <= i < front.len() implies #[trigger] front[i] != '?' by {
            if i < path.len() {
                assert(front[i] == path[i]);
            }
        }
    }
    lemma_behind(front, rest, '?');
    assert(s =~= front + rest);
    assert(with_between(path, '#', before_first(rest, '?')) =~= front + before_first(rest, '?'));
}

/// A front without the character does not change where the character is found.
pub proof fn lemma_behind(front: Seq<char>, rest: Seq<char>, c: char)
    requires
        lacks(front, c),
    ensures
        before_first(front + rest, c) == front + before_first(rest, c),
{
    if exists|i: int| 0 <= i < rest.len() && rest[i] == c {
        lemma_split_at(rest, c);
        let (a, b): (Seq<char>, Seq<char>) = choose|a: Seq<char>, b: Seq<char>|
            lacks(a, c) && rest == #[trigger] with_between(a, c, b);
        law_before_first(a, c, b);
        assert(lacks(front + a, c)) by {
            assert forall|i: int| 0 <= i < (front + a).len() implies #[trigger] (front + a)[i] != c by {
                if i < front.len() {
                    assert((front + a)[i] == front[i]);
                } else {
                    assert((front + a)[i] == a[i - front.len()]);
                }
            }
        }
        law_before_first(front + a, c, b);
        assert(front + rest =~= with_between(front + a, c, b));
    } else {
        assert(lacks(rest, c));
        law_before_first(rest, c, Seq::empty());
        assert(lacks(front + rest, c)) by {
            assert forall|i: int| 0 <= i < (front + rest).len() implies #[trigger] (front + rest)[i]
                != c by {
                if i < front.len() {
                    assert((front + rest)[i] == front[i]);
                } else {
                    assert((front + rest)[i] == rest[i - front.len()]);
                }
            }
        }
        law_before_first(front + rest, c, Seq::empty());
    }
}

/// A text with a character is what stands before its first occurrence, the
/// character, and the rest.
proof fn lemma_split_at(s: Seq<char>, c: char)
    requires
        exists|i: int| 0 <= i < s.len() && s[i] == c,
    ensures
        exists|a: Seq<char>, b: Seq<char>| lacks(a, c) && s == #[trigger] with_between(a, c, b),
    decreases s.len(),
{
    let i = choose|i: int| 0 <= i < s.len() && s[i] == c;
    let a = s.subrange(0, i);
    let b = s.subrange(i + 1, s.len() as int);
    assert(s =~= with_between(a, c, b));
    if !lacks(a, c) {
        let j = choose|j: int| 0 <= j < a.len() && a[j] == c;
        assert(a[j] == c);
        lemma_split_at(a, c);
        let (x, y): (Seq<char>, Seq<char>) = choose|x: Seq<char>, y: Seq<char>|
            lacks(x, c) && a == #[trigger] with_between(x, c, y);
        assert(s =~= with_between(x, c, with_between(y, c, b)));
    }
}

/// The extension of a URL is that of the last name on its path, in lower case and
/// in its canonical form. Neither dots in the name or the host nor a query or
/// fragment change that.
pub proof fn law_url_extension(front: Seq<char>, stem: Seq<char>, ext: Seq<char>, behind: Seq<char>)
    requires
        names_file(front, stem, ext, behind),
    ensures
        url_ext(file_url(front, stem, ext, behind)) == Some(canonical_ext(ascii_lower_seq(ext))),
{
    let name = with_between(stem, '.', ext);
    let path = with_between(front, '/', name);
    assert(lacks(name, '/') && lacks(name, '?') && lacks(name, '#')) by {
        lemma_lacks(stem, '.', ext, '/');
        lemma_lacks(stem, '.', ext, '?');
        lemma_lacks(stem, '.', ext, '#');
    }
    lemma_lacks(front, '/', name, '?');
    lemma_lacks(front, '/', name, '#');
    lemma_path(path, behind);
    law_after_last(front, '/', name);
    law_after_last(stem, '.', ext);
    assert(ext.len() < name.len());
}

/// A text put together from two that lack a character lacks it.
proof fn lemma_lacks(a: Seq<char>, between: char, b: Seq<char>, c: char)
    requires
        lacks(a, c),
        lacks(b, c),
        between != c,
    ensures
        lacks(with_between(a, between, b), c),
{
    let s = with_between(a, between, b);
    assert forall|i: int| 0 <= i < s.len() implies #[trigger] s[i] != c by {
        if i < a.len() {
            assert(s[i] == a[i]);
        } else if i > a.len() {
            assert(s[i] == b[i - a.len() - 1]);
        }
    }
}

/// A name without a dot has no extension.
pub proof fn law_no_extension(front: Seq<char>, name: Seq<char>, behind: Seq<char>)
    requires
        lacks(front, '?') && lacks(front, '#'),
        lacks(name, '?') && lacks(name, '#') && lacks(name, '/') && lacks(name, '.'),
        behind_path(behind),
    ensures
        url_ext(with_between(front, '/', name) + behind) is None,
{
    lemma_lacks(front, '/', name, '?');
    lemma_lacks(front, '/', name, '#');
    lemma_path(with_between(front, '/', name), behind);
    law_after_last(front, '/', name);
    law_after_last(Seq::empty(), '.', name);
}

/// A signature that names an archive or nothing but a binary.
pub open spec fn bare_container(group: MatcherGroup) -> bool {
    group == MatcherGroup::Archive || group == MatcherGroup::App || group == MatcherGroup::Font
        || group == MatcherGroup::Custom
}

/// A category that names what is inside.
pub open spec fn telling(kind: FileKind) -> bool {
    kind != FileKind::Archive && kind != FileKind::Binary && kind != FileKind::Unknown
}

/// Where the first bytes show an archive or a binary alone, the extension in the
/// URL says what is inside: a scene, document or picture in a container is
/// classified as the tables classify its extension, whatever the header says.
pub proof fn law_container_yields_to_url(
    bytes: Seq<u8>,
    front: Seq<char>,
    stem: Seq<char>,
    ext: Seq<char>,
    behind: Seq<char>,
    header: Option<Seq<char>>,
    group: MatcherGroup,
    mime: Seq<char>,
    signature_ext: Seq<char>,
)
    requires
        names_file(front, stem, ext, behind),
        bare_container(group),
        mime != "text/html"@ && mime != "application/xhtml+xml"@,
        telling(kind_of_ext(canonical_ext(ascii_lower_seq(ext)))),
    ensures
        ({
            let e = canonical_ext(ascii_lower_seq(ext));
            let url = file_url(front, stem, ext, behind);
            sniffed(bytes, url, header, Some((group, mime, signature_ext))) == (
                kind_of_ext(e),
                mime_of_ext(e),
                e,
            )
        }),
{
    law_url_extension(front, stem, ext, behind);
}

/// Where the URL names nothing inside, a container stays what its signature says.
pub proof fn law_container_stays(
    bytes: Seq<u8>,
    url: Seq<char>,
    header: Option<Seq<char>>,
    group: MatcherGroup,
    mime: Seq<char>,
    signature_ext: Seq<char>,
)
    requires
        bare_container(group),
        mime != "text/html"@ && mime != "application/xhtml+xml"@,
        url_ext(url) is Some ==> !telling(kind_of_ext(url_ext(url)->0)),
        canonical_ext(signature_ext) != "tiff"@,
    ensures
        sniffed(bytes, url, header, Some((group, mime, signature_ext))) == (
            if group == MatcherGroup::Archive {
                FileKind::Archive
            } else {
                FileKind::Binary
            },
            mime,
            canonical_ext(signature_ext),
        ),
{
}

/// Pictures, films, sounds and documents are what their first bytes say, whatever
/// URL and header say. TIFF is another matter: camera-raw files are TIFF too.
pub proof fn law_signature_decides(
    bytes: Seq<u8>,
    url: Seq<char>,
    header: Option<Seq<char>>,
    group: MatcherGroup,
    kind: FileKind,
    mime: Seq<char>,
    signature_ext: Seq<char>,
)
    requires
        ({
            ||| group == MatcherGroup::Image && kind == FileKind::Image
            ||| group == MatcherGroup::Video && kind == FileKind::Video
            ||| group == MatcherGroup::Audio && kind == FileKind::Audio
            ||| group == MatcherGroup::Doc && kind == FileKind::Document
            ||| group == MatcherGroup::Book && kind == FileKind::Document
        }),
        mime != "text/html"@ && mime != "application/xhtml+xml"@,
        canonical_ext(signature_ext) != "tiff"@,
    ensures
        sniffed(bytes, url, header, Some((group, mime, signature_ext))) == (
            kind,
            mime,
            canonical_ext(signature_ext),
        ),
{
}

/// HTML is a document, whatever group its signature is listed under and whatever URL
/// and header say.
pub proof fn law_html_is_a_document(
    bytes: Seq<u8>,
    url: Seq<char>,
    header: Option<Seq<char>>,
    group: MatcherGroup,
    mime: Seq<char>,
    signature_ext: Seq<char>,
)
    requires
        mime == "text/html"@ || mime == "application/xhtml+xml"@,
        canonical_ext(signature_ext) != "tiff"@,
    ensures
        sniffed(bytes, url, header, Some((group, mime, signature_ext))) == (
            FileKind::Document,
            mime,
            canonical_ext(signature_ext),
        ),
{
}

/// A letter of a tag in either case.
pub open spec fn in_either_case(b: u8, upper: u8) -> bool {
    b == upper || b == upper + 32
}

/// Text with an `svg` tag in it is a drawing, wherever the tag stands and in
/// whatever case its letters are.
pub proof fn law_svg_in_text(
    before: Seq<u8>,
    s: u8,
    v: u8,
    g: u8,
    end: u8,
    behind: Seq<u8>,
    url: Seq<char>,
    header: Option<Seq<char>>,
    mime: Seq<char>,
    signature_ext: Seq<char>,
)
    requires
        in_either_case(s, 83) && in_either_case(v, 86) && in_either_case(g, 71),
        end == 32 || end == 9 || end == 10 || end == 13 || end == 62 || end == 47,
        mime != "text/html"@ && mime != "application/xhtml+xml"@,
    ensures
        sniffed(
            before + seq![60u8, s, v, g, end] + behind,
            url,
            header,
            Some((MatcherGroup::Text, mime, signature_ext)),
        ) == (FileKind::Vector, "image/svg+xml"@, "svg"@),
{
    let bytes = before + seq![60u8, s, v, g, end] + behind;
    let i = before.len() as int;
    assert(bytes[i] == 60 && bytes[i + 1] == s && bytes[i + 2] == v && bytes[i + 3] == g && bytes[i + 4]
        == end);
    assert(svg_tag_at(bytes, i));
}

/// The extensions under which cameras store raw files in the form of TIFF.
pub open spec fn camera_ext(e: Seq<char>) -> bool {
    ||| e == "dng"@ || e == "cr2"@ || e == "nef"@ || e == "arw"@ || e == "orf"@
    ||| e == "rw2"@ || e == "pef"@ || e == "srw"@ || e == "raf"@ || e == "3fr"@
    ||| e == "fff"@ || e == "iiq"@ || e == "mef"@ || e == "rwl"@ || e == "raw"@
}

/// A TIFF picture under the extension of a camera's raw files is such a file; under
/// any other it is TIFF.
pub proof fn law_tiff_or_raw(
    bytes: Seq<u8>,
    url: Seq<char>,
    header: Option<Seq<char>>,
    mime: Seq<char>,
    signature_ext: Seq<char>,
)
    requires
        canonical_ext(signature_ext) == "tiff"@,
        mime != "text/html"@ && mime != "application/xhtml+xml"@,
    ensures
        ({
            let r = sniffed(bytes, url, header, Some((MatcherGroup::Image, mime, signature_ext)));
            if url_ext(url) is Some && camera_ext(url_ext(url)->0) {
                r == (FileKind::Image, mime_of_ext(url_ext(url)->0), url_ext(url)->0)
            } else {
                r == (FileKind::Image, mime, "tiff"@)
            }
        }),
{
}

/// Without a signature the header decides: its MIME type, without parameters and
/// white space and in lower case, gives the category. The extension is that of the
/// URL, or else the one that the tables list for the MIME type.
pub proof fn law_header_before_url(
    bytes: Seq<u8>,
    url: Seq<char>,
    left: Seq<char>,
    written: Seq<char>,
    right: Seq<char>,
    parameters: Option<Seq<char>>,
)
    requires
        blank(left),
        blank(right),
        tight(written),
        lacks(written, ';'),
        ({
            let mime = ascii_lower_seq(written);
            kind_of_mime(mime, if url_ext(url) is Some {
                url_ext(url)->0
            } else {
                ext_of_mime(mime)
            }) != FileKind::Unknown
        }),
    ensures
        ({
            let mime = ascii_lower_seq(written);
            let value = left + written + right;
            let header = match parameters {
                Some(p) => with_between(value, ';', p),
                None => value,
            };
            let ext = if url_ext(url) is Some {
                url_ext(url)->0
            } else {
                ext_of_mime(mime)
            };
            sniffed(bytes, url, Some(header), None) == (kind_of_mime(mime, ext), mime, ext)
        }),
{
    let value = left + written + right;
    assert(lacks(value, ';')) by {
        assert forall|i: int| 0 <= i < value.len() implies #[trigger] value[i] != ';' by {
            if i < left.len() {
                assert(value[i] == left[i]);
            } else if i < left.len() + written.len() {
                assert(value[i] == written[i - left.len()]);
            } else {
                assert(value[i] == right[i - left.len() - written.len()]);
            }
        }
    }
    law_trimmed(left, written, right);
    law_before_first(
        value,
        ';',
        if parameters is Some {
            parameters->0
        } else {
            Seq::empty()
        },
    );
}

/// Without signature and header the URL's extension decides; without that nothing
/// is known.
pub proof fn law_url_at_last(bytes: Seq<u8>, url: Seq<char>)
    ensures
        match url_ext(url) {
            Some(e) => sniffed(bytes, url, None, None) == (kind_of_ext(e), mime_of_ext(e), e),
            None => sniffed(bytes, url, None, None) == (
                FileKind::Unknown,
                "application/octet-stream"@,
                "bin"@,
            ),
        },
{
}

} // verus!
