//! The tier-3 renderer's decisions: which backends are tried, how the tools are
//! called, and what they answer.
use std::sync::Arc;

use vstd::prelude::*;

use crate::cook::{CookStatus, ThumbCook};
use crate::json::{listed_pairs, members_of, pair_texts, read_members, read_pairs};
use crate::lines::{first_line, first_line_or, lines, lines_of, words, words_from};
use crate::media::FileKind;
use crate::number::{decimal, decimal_of, parse_number, parsed};
use crate::props::{image_entries, image_props_map};
use crate::raster::ImageProps;
use crate::renderer::{apply_render_output, output_applied, RenderOutput};
use crate::text::{
    chars_of,
    cut,
    find_chars,
    first_at,
    holds,
    holds_at,
    join2,
    join3,
    owned,
    parts,
    push_text,
    same,
    split,
    split_once,
    string_from_chars,
    texts,
    trim,
    trimmed,
};
use crate::text_map::TextMap;
use crate::tier2::jpeg::{arithmetic_jpeg, is_arithmetic_peek};
use crate::tier2::renderer::{is_jpeg_format, jpeg_ext, Tier2Renderer};
use crate::tier3::env_check::{available_in, find_handler, handler_for, EnvReport, HandlerDecl};

verus! {

/// The tier-3 renderer: the tier-2 renderer and what this machine has beside it.
#[derive(Debug)]
pub struct Tier3Renderer {
    pub tier2: Tier2Renderer,
    pub env: EnvReport,
}

impl Tier3Renderer {
    /// The renderer on a machine with these capabilities.
    pub fn new(env: EnvReport) -> (r: Self)
        ensures
            r.tier2 == Tier2Renderer,
            r.env == env,
    {
        Tier3Renderer { tier2: Tier2Renderer::new(), env }
    }

    /// The renderer, to be shared.
    pub fn shared(env: EnvReport) -> (r: Arc<Self>)
        ensures
            r.tier2 == Tier2Renderer,
            r.env == env,
    {
        Arc::new(Self::new(env))
    }
}

/// A backend that may claim a source.
#[derive(Clone, Copy, Debug, PartialEq, Eq, Structural)]
pub enum Tier3Step {
    /// A registered handler for 3D geometry.
    Geometry,
    /// GraphicsMagick, for JPEG with arithmetic coding.
    Magick,
    /// The tier-2 renderer.
    Tier2,
    /// The command-line tool for images of an extension.
    ImageTool,
    /// FFmpeg's command-line tool, for video.
    VideoTool,
}

/// The backends that a source is offered to, one after the other, until one
/// claims it. A handoff has been through tier 2 already, and skips it.
pub open spec fn steps_for(kind: Option<FileKind>, ext: Seq<char>, is_handoff: bool) -> Seq<
    Tier3Step,
> {
    match kind {
        Some(FileKind::Document) => Seq::empty(),
        Some(FileKind::Geometry) => seq![Tier3Step::Geometry],
        Some(FileKind::Image) => if jpeg_ext(ext) {
            if is_handoff {
                seq![Tier3Step::Magick]
            } else {
                seq![Tier3Step::Magick, Tier3Step::Tier2]
            }
        } else if is_handoff {
            seq![Tier3Step::ImageTool]
        } else {
            seq![Tier3Step::Tier2, Tier3Step::ImageTool]
        },
        Some(FileKind::Video) => if is_handoff {
            seq![Tier3Step::VideoTool]
        } else {
            seq![Tier3Step::Tier2, Tier3Step::VideoTool]
        },
        _ => if is_handoff {
            Seq::empty()
        } else {
            seq![Tier3Step::Tier2]
        },
    }
}

/// Lists the backends that a source is offered to.
pub fn render_steps(kind: Option<FileKind>, ext: &str, is_handoff: bool) -> (r: Vec<Tier3Step>)
    ensures
        r@ == steps_for(kind, ext@, is_handoff),
{
    let mut out: Vec<Tier3Step> = Vec::new();
    match kind {
        Some(FileKind::Document) => {},
        Some(FileKind::Geometry) => {
            out.push(Tier3Step::Geometry);
        },
        Some(FileKind::Image) => {
            if is_jpeg_format(ext) {
                out.push(Tier3Step::Magick);
                if !is_handoff {
                    out.push(Tier3Step::Tier2);
                }
            } else {
                if !is_handoff {
                    out.push(Tier3Step::Tier2);
                }
                out.push(Tier3Step::ImageTool);
            }
        },
        Some(FileKind::Video) => {
            if !is_handoff {
                out.push(Tier3Step::Tier2);
            }
            out.push(Tier3Step::VideoTool);
        },
        _ => {
            if !is_handoff {
                out.push(Tier3Step::Tier2);
            }
        },
    }
    assert(out@ =~= steps_for(kind, ext@, is_handoff));
    out
}

/// A handoff never goes back to tier 2.
pub proof fn law_handoff_skips_tier2(kind: Option<FileKind>, ext: Seq<char>, i: int)
    requires
        0 <= i < steps_for(kind, ext, true).len(),
    ensures
        steps_for(kind, ext, true)[i] != Tier3Step::Tier2,
{
}

/// The entries of a report that may not be there yet.
pub open spec fn has_backend(env: Option<EnvReport>, name: Seq<char>) -> bool {
    env is Some && available_in(env->0.entries(), name)
}

fn backend_there(env: Option<&EnvReport>, name: &str) -> (r: bool)
    requires
        env is Some ==> env->0.wf(),
    ensures
        r == has_backend(
            match env {
                Some(e) => Some(*e),
                None => None,
            },
            name@,
        ),
{
    match env {
        Some(e) => e.is_available(name),
        None => false,
    }
}

/// Whether GraphicsMagick takes a JPEG: its coding is arithmetic, and the tool
/// is there.
pub fn magick_applies(peeked: Option<&[u8]>, env: Option<&EnvReport>) -> (r: bool)
    requires
        env is Some ==> env->0.wf(),
    ensures
        r == (peeked is Some && arithmetic_jpeg(peeked->0@) && has_backend(
            match env {
                Some(e) => Some(*e),
                None => None,
            },
            "magick"@,
        )),
{
    is_arithmetic_peek(peeked) && backend_there(env, "magick")
}

/// The extensions of studio formats.
pub open spec fn oiio_ext(ext: Seq<char>) -> bool {
    ext == "exr"@ || ext == "sxr"@ || ext == "mxr"@ || ext == "hdr"@ || ext == "rgbe"@ || ext
        == "dpx"@ || ext == "cin"@ || ext == "dds"@ || ext == "fits"@ || ext == "iff"@ || ext
        == "pic"@ || ext == "rla"@ || ext == "zfile"@ || ext == "sgi"@ || ext == "rgb"@ || ext
        == "rgba"@ || ext == "bw"@ || ext == "int"@ || ext == "inta"@
}

/// Whether an extension is best handled by oiiotool.
pub fn is_oiio_format(ext: &str) -> (r: bool)
    ensures
        r == oiio_ext(ext@),
{
    same(ext, "exr") || same(ext, "sxr") || same(ext, "mxr") || same(ext, "hdr") || same(
        ext,
        "rgbe",
    ) || same(ext, "dpx") || same(ext, "cin") || same(ext, "dds") || same(ext, "fits") || same(
        ext,
        "iff",
    ) || same(ext, "pic") || same(ext, "rla") || same(ext, "zfile") || same(ext, "sgi") || same(
        ext,
        "rgb",
    ) || same(ext, "rgba") || same(ext, "bw") || same(ext, "int") || same(ext, "inta")
}

/// A command-line tool that decodes images.
#[derive(Clone, Copy, Debug, PartialEq, Eq, Structural)]
pub enum ImageTool {
    Oiiotool,
    FfmpegCli,
}

impl ImageTool {
    /// The name of its backend.
    pub open spec fn spec_name(self) -> Seq<char> {
        match self {
            ImageTool::Oiiotool => "oiiotool"@,
            ImageTool::FfmpegCli => "ffmpeg_cli"@,
        }
    }

    /// The name of its backend.
    pub fn name(self) -> (r: &'static str)
        ensures
            r@ == self.spec_name(),
    {
        match self {
            ImageTool::Oiiotool => "oiiotool",
            ImageTool::FfmpegCli => "ffmpeg_cli",
        }
    }
}

/// The one tool for an extension: oiiotool for studio formats and JPEG 2000,
/// FFmpeg for all others.
pub open spec fn tool_for(ext: Seq<char>) -> ImageTool {
    if oiio_ext(ext) || ext == "jp2"@ || ext == "j2k"@ {
        ImageTool::Oiiotool
    } else {
        ImageTool::FfmpegCli
    }
}

/// Picks the tool for an extension, if it is there. There is no fallback from
/// one tool to another.
pub fn image_tool(ext: &str, env: Option<&EnvReport>) -> (r: Option<ImageTool>)
    requires
        env is Some ==> env->0.wf(),
    ensures
        r == (if has_backend(
            match env {
                Some(e) => Some(*e),
                None => None,
            },
            tool_for(ext@).spec_name(),
        ) {
            Some(tool_for(ext@))
        } else {
            None
        }),
{
    let tool = if is_oiio_format(ext) || same(ext, "jp2") || same(ext, "j2k") {
        ImageTool::Oiiotool
    } else {
        ImageTool::FfmpegCli
    };
    if backend_there(env, tool.name()) {
        Some(tool)
    } else {
        None
    }
}

/// Whether FFmpeg's command-line tool is there.
pub fn has_ffmpeg_cli(env: Option<&EnvReport>) -> (r: bool)
    requires
        env is Some ==> env->0.wf(),
    ensures
        r == has_backend(
            match env {
                Some(e) => Some(*e),
                None => None,
            },
            "ffmpeg_cli"@,
        ),
{
    backend_there(env, "ffmpeg_cli")
}

/// Picks the handler for 3D geometry of an extension: the first that claims it,
/// if its command is there.
pub fn geometry_handler(
    handlers: &Vec<HandlerDecl>,
    ext: &str,
    env: Option<&EnvReport>,
) -> (r: Option<usize>)
    requires
        env is Some ==> env->0.wf(),
    ensures
        match handler_for(handlers@, ext@, 0) {
            Some(i) => if has_backend(
                match env {
                    Some(e) => Some(*e),
                    None => None,
                },
                handlers@[i].name@,
            ) {
                r is Some && r->0 == i
            } else {
                r is None
            },
            None => r is None,
        },
{
    match find_handler(handlers, ext) {
        Some(i) => if backend_there(env, handlers[i].name.as_str()) {
            Some(i)
        } else {
            None
        },
        None => None,
    }
}

/// The larger of two lengths.
pub open spec fn larger(a: u32, b: u32) -> u32 {
    if a > b {
        a
    } else {
        b
    }
}

/// The scale doubles from `s` on as long as the length divided by twice the
/// scale is at least 256.
pub open spec fn scale_from(len: u32, s: int) -> int
    decreases len - s,
{
    if s > 0 && len as int / (s * 2) >= 256 && s * 2 <= len {
        scale_from(len, s * 2)
    } else {
        s
    }
}

/// The power of two by which a source is scaled down: none up to 512 pixels.
pub open spec fn scale_of(w: u32, h: u32) -> int {
    if larger(w, h) > 512 {
        scale_from(larger(w, h), 1)
    } else {
        1
    }
}

/// The dimensions that a source is scaled down to.
pub open spec fn scaled_dims(w: u32, h: u32) -> (u32, u32) {
    ((w as int / scale_of(w, h)) as u32, (h as int / scale_of(w, h)) as u32)
}

proof fn lemma_double(len: u32, s: int)
    requires
        s > 0,
        len as int / (s * 2) >= 256,
    ensures
        s * 2 * 256 <= len,
{
    assert(s * 2 * 256 <= len) by (nonlinear_arith)
        requires
            s > 0,
            len as int / (s * 2) >= 256,
    ;
}

proof fn lemma_scale_from(len: u32, s: int)
    requires
        s > 0,
        len as int / s >= 256,
    ensures
        256 <= len as int / scale_from(len, s) <= 511,
        scale_from(len, s) >= s,
    decreases len - s,
{
    if len as int / (s * 2) >= 256 {
        lemma_double(len, s);
        lemma_scale_from(len, s * 2);
    } else {
        assert(len as int / s <= 511) by (nonlinear_arith)
            requires
                s > 0,
                len as int / (s * 2) < 256,
        ;
    }
}

/// A source that is scaled down keeps between 256 and 511 pixels on its longer
/// side.
pub proof fn law_scaled_long_side(w: u32, h: u32)
    requires
        larger(w, h) > 512,
    ensures
        256 <= larger(w, h) as int / scale_of(w, h) <= 511,
{
    lemma_scale_from(larger(w, h), 1);
}

/// Computes the dimensions that a source is scaled down to.
pub fn downscale(w: u32, h: u32) -> (r: (u32, u32))
    ensures
        r == scaled_dims(w, h),
{
    let max: u32 = if w > h {
        w
    } else {
        h
    };
    if max <= 512 {
        assert(w as int / 1 == w && h as int / 1 == h);
        return (w, h);
    }
    let mut s: u32 = 1;
    while max as u64 / (s as u64 * 2) >= 256
        invariant
            max == larger(w, h),
            0 < s <= max,
            scale_from(max, 1) == scale_from(max, s as int),
        decreases max - s,
    {
        proof {
            lemma_double(max, s as int);
        }
        s = s * 2;
    }
    assert(scale_of(w, h) == s);
    (w / s, h / s)
}

/// The dimensions that GraphicsMagick reports, or what is wrong with its report.
pub open spec fn gm_dims(text: Seq<char>) -> Result<(u32, u32), Seq<char>> {
    let w = words_from(text, 0);
    if w.len() < 2 {
        Err("gm identify: unexpected output: "@ + text)
    } else {
        match (parsed(w[0], 4294967295), parsed(w[1], 4294967295)) {
            (None, _) => Err("gm identify width: "@ + text),
            (Some(_), None) => Err("gm identify height: "@ + text),
            (Some(x), Some(y)) => Ok((x as u32, y as u32)),
        }
    }
}

/// A result agrees with its model.
pub open spec fn same_dims(
    r: Result<(u32, u32), String>,
    m: Result<(u32, u32), Seq<char>>,
) -> bool {
    match (r, m) {
        (Ok(a), Ok(b)) => a == b,
        (Err(a), Err(b)) => a@ == b,
        _ => false,
    }
}

/// Reads the dimensions off GraphicsMagick's report.
pub fn gm_dimensions(text: &str) -> (r: Result<(u32, u32), String>)
    ensures
        same_dims(r, gm_dims(text@)),
{
    let w = words(text);
    assert(texts(w@).len() == w@.len());
    if w.len() < 2 {
        return Err(join2("gm identify: unexpected output: ", text));
    }
    assert(texts(w@)[0] == w@[0]@ && texts(w@)[1] == w@[1]@);
    let width: Option<u64> = parse_number(w[0].as_str(), 4294967295);
    let height: Option<u64> = parse_number(w[1].as_str(), 4294967295);
    match (width, height) {
        (None, _) => Err(join2("gm identify width: ", text)),
        (Some(_), None) => Err(join2("gm identify height: ", text)),
        (Some(x), Some(y)) => Ok((x as u32, y as u32)),
    }
}

/// The dimensions of the first stream that ffprobe lists; unknown ones count as
/// zero, and larger ones lose their high bits.
pub open spec fn probed_dims(streams: Option<Seq<(Option<u64>, Option<u64>)>>) -> Result<
    (u32, u32),
    Seq<char>,
> {
    match streams {
        None => Err("ffprobe: no streams"@),
        Some(s) => if s.len() == 0 {
            Err("ffprobe: no video stream"@)
        } else {
            let w = match s[0].0 {
                Some(n) => n as u32,
                None => 0u32,
            };
            let h = match s[0].1 {
                Some(n) => n as u32,
                None => 0u32,
            };
            if w == 0 || h == 0 {
                Err("ffprobe: zero dimensions"@)
            } else {
                Ok((w, h))
            }
        },
    }
}

/// Takes the dimensions of the first stream that ffprobe lists.
pub fn ffprobe_dimensions(streams: &Option<Vec<(Option<u64>, Option<u64>)>>) -> (r: Result<
    (u32, u32),
    String,
>)
    ensures
        same_dims(
            r,
            probed_dims(
                match streams {
                    Some(s) => Some(s@),
                    None => None,
                },
            ),
        ),
{
    let s = match streams {
        None => return Err(owned("ffprobe: no streams")),
        Some(s) => s,
    };
    if s.len() == 0 {
        return Err(owned("ffprobe: no video stream"));
    }
    let (w, h) = s[0];
    let w: u32 = match w {
        Some(n) => #[verifier::truncate] (n as u32),
        None => 0,
    };
    let h: u32 = match h {
        Some(n) => #[verifier::truncate] (n as u32),
        None => 0,
    };
    if w == 0 || h == 0 {
        return Err(owned("ffprobe: zero dimensions"));
    }
    Ok((w, h))
}

/// Reads the dimensions of the first stream off the report that ffprobe printed.
pub fn probed_size(report: &[u8]) -> (r: Result<(u32, u32), String>)
    ensures
        match listed_pairs(report@, "streams"@, "width"@, "height"@) {
            Ok(streams) => same_dims(r, probed_dims(streams)),
            Err(e) => r is Err && r->Err_0@ == "ffprobe json: "@ + e,
        },
{
    match read_pairs(report, "streams", "width", "height") {
        Ok(streams) => ffprobe_dimensions(&streams),
        Err(e) => Err(join2("ffprobe json: ", e.as_str())),
    }
}

/// Takes the properties that a handler wrote, as JSON; nothing where it wrote
/// none or no JSON.
pub fn handler_properties(raw: Option<&str>) -> (r: Option<TextMap>)
    ensures
        match raw {
            Some(t) => match (r, members_of(t@)) {
                (Some(map), Some(m)) => pair_texts(map.pairs@) == m,
                (None, None) => true,
                _ => false,
            },
            None => r is None,
        },
{
    match raw {
        Some(t) => match read_members(t) {
            Some(pairs) => Some(TextMap { pairs }),
            None => None,
        },
        None => None,
    }
}

/// The number that a part of a text stands for, 0 where it stands for none.
pub open spec fn number_or_zero(t: Seq<char>) -> u32 {
    match parsed(trimmed(t), 4294967295) {
        Some(n) => n as u32,
        None => 0,
    }
}

/// The dimensions behind ` : ` in a line, up to the next comma: two numbers with
/// an `x` between them.
pub open spec fn line_dims(line: Seq<char>, at: int) -> (u32, u32) {
    match cut(line.subrange(at + 3, line.len() as int), ',') {
        Some((dims, _)) => {
            let p = parts(dims, 'x');
            if p.len() >= 2 {
                (number_or_zero(p[0]), number_or_zero(p[1]))
            } else {
                (0u32, 0u32)
            }
        },
        None => (0u32, 0u32),
    }
}

/// The dimensions in the first line from `i` on that holds ` : `.
pub open spec fn info_dims(all: Seq<Seq<char>>, i: int) -> (u32, u32)
    decreases all.len() - i,
{
    if i < 0 || i >= all.len() {
        (0u32, 0u32)
    } else {
        if holds(all[i], " : "@) {
            line_dims(all[i], place_of(all[i], " : "@))
        } else {
            info_dims(all, i + 1)
        }
    }
}

/// Where `p` first stands in `s`.
pub open spec fn place_of(s: Seq<char>, p: Seq<char>) -> int {
    choose|at: int| first_at(s, p, at)
}

proof fn lemma_place(s: Seq<char>, p: Seq<char>, at: int)
    requires
        first_at(s, p, at),
    ensures
        place_of(s, p) == at,
        holds(s, p),
{
    let c = place_of(s, p);
    assert(first_at(s, p, c));
    if c < at {
        assert(holds_at(s, p, c));
    } else if at < c {
        assert(holds_at(s, p, at));
    }
}

/// The dimensions that oiiotool reports, or what is wrong with its report.
pub open spec fn oiio_dims(text: Seq<char>) -> Result<(u32, u32), Seq<char>> {
    let (w, h) = info_dims(lines_of(text), 0);
    if w == 0 || h == 0 {
        Err("oiiotool: could not parse dimensions from: "@ + text)
    } else {
        Ok((w, h))
    }
}

fn part_number(t: &str) -> (r: u32)
    ensures
        r == number_or_zero(t@),
{
    let n: Option<u64> = parse_number(trim(t).as_str(), 4294967295);
    match n {
        Some(n) => n as u32,
        None => 0,
    }
}

/// Reads the dimensions in a line, behind the ` : ` at `at`.
fn read_line_dims(line: &Vec<char>, at: usize) -> (r: (u32, u32))
    requires
        at + 3 <= line@.len(),
    ensures
        r == line_dims(line@, at as int),
{
    let len: usize = line.len();
    let rest = string_from_chars(line, at + 3, len);
    match split_once(rest.as_str(), ',') {
        Some((dims, _)) => {
            let p = split(dims.as_str(), 'x');
            assert(texts(p@).len() == p@.len());
            if p.len() >= 2 {
                assert(texts(p@)[0] == p@[0]@ && texts(p@)[1] == p@[1]@);
                (part_number(p[0].as_str()), part_number(p[1].as_str()))
            } else {
                (0, 0)
            }
        },
        None => (0, 0),
    }
}

/// Reads the dimensions off oiiotool's report.
pub fn oiio_dimensions(text: &str) -> (r: Result<(u32, u32), String>)
    ensures
        same_dims(r, oiio_dims(text@)),
{
    let all = lines(text);
    let mark = chars_of(" : ");
    proof {
        reveal_strlit(" : ");
    }
    let mut found: (u32, u32) = (0, 0);
    let mut i: usize = 0;
    while i < all.len()
        invariant_except_break
            i <= all@.len(),
            mark@ == " : "@,
            " : "@.len() == 3,
            texts(all@) == lines_of(text@),
            found == (0u32, 0u32),
            info_dims(lines_of(text@), 0) == info_dims(lines_of(text@), i as int),
        ensures
            found == info_dims(lines_of(text@), 0),
        decreases all@.len() - i,
    {
        let line = chars_of(all[i].as_str());
        assert(texts(all@)[i as int] == all@[i as int]@);
        let at: Option<usize> = find_chars(&line, &mark);
        if let Some(at) = at {
            proof {
                lemma_place(line@, " : "@, at as int);
            }
            found = read_line_dims(&line, at);
            break;
        }
        i += 1;
    }
    if found.0 == 0 || found.1 == 0 {
        return Err(join2("oiiotool: could not parse dimensions from: ", text));
    }
    Ok(found)
}

/// Dimensions as tools write them, with a sign between.
pub open spec fn size_text(w: u32, h: u32, sign: Seq<char>) -> Seq<char> {
    decimal(w as nat) + sign + decimal(h as nat)
}

fn size_of_text(w: u32, h: u32, sign: &str) -> (r: String)
    ensures
        r@ == size_text(w, h, sign@),
{
    join3(decimal_of(w as u64).as_str(), sign, decimal_of(h as u64).as_str())
}

/// Appends a literal argument.
fn arg(list: &mut Vec<String>, t: &str)
    ensures
        texts(final(list)@) == texts(old(list)@).push(t@),
{
    push_text(list, owned(t));
}

fn no_args() -> (r: Vec<String>)
    ensures
        texts(r@) == Seq::<Seq<char>>::empty(),
{
    let v: Vec<String> = Vec::new();
    assert(texts(v@) =~= Seq::<Seq<char>>::empty());
    v
}

/// The arguments with which `gm` reports the dimensions of a file.
pub fn gm_identify_args(input: &str) -> (r: Vec<String>)
    ensures
        texts(r@) == seq!["identify"@, "-format"@, "%w %h"@, input@],
{
    let mut a = no_args();
    arg(&mut a, "identify");
    arg(&mut a, "-format");
    arg(&mut a, "%w %h");
    arg(&mut a, input);
    assert(texts(a@) =~= seq!["identify"@, "-format"@, "%w %h"@, input@]);
    a
}

/// The arguments with which `gm` makes a PNG of a file, at a reduced size.
pub fn gm_convert_args(input: &str, w: u32, h: u32, output: &str) -> (r: Vec<String>)
    ensures
        texts(r@) == seq![
            "convert"@,
            input@,
            "-resize"@,
            size_text(w, h, "x"@),
            "PNG:"@ + output@,
        ],
{
    let mut a = no_args();
    arg(&mut a, "convert");
    arg(&mut a, input);
    arg(&mut a, "-resize");
    push_text(&mut a, size_of_text(w, h, "x"));
    push_text(&mut a, join2("PNG:", output));
    assert(texts(a@) =~= seq![
        "convert"@,
        input@,
        "-resize"@,
        size_text(w, h, "x"@),
        "PNG:"@ + output@,
    ]);
    a
}

/// The arguments with which `ffprobe` lists the first video stream of a file.
pub fn ffprobe_args(input: &str) -> (r: Vec<String>)
    ensures
        texts(r@) == seq![
            "-v"@,
            "quiet"@,
            "-print_format"@,
            "json"@,
            "-show_streams"@,
            "-select_streams"@,
            "v:0"@,
            input@,
        ],
{
    let mut a = no_args();
    arg(&mut a, "-v");
    arg(&mut a, "quiet");
    arg(&mut a, "-print_format");
    arg(&mut a, "json");
    arg(&mut a, "-show_streams");
    arg(&mut a, "-select_streams");
    arg(&mut a, "v:0");
    arg(&mut a, input);
    assert(texts(a@) =~= seq![
        "-v"@,
        "quiet"@,
        "-print_format"@,
        "json"@,
        "-show_streams"@,
        "-select_streams"@,
        "v:0"@,
        input@,
    ]);
    a
}

/// The filter that FFmpeg applies: for video the most telling of twenty frames,
/// and a smaller size where the source is scaled down.
pub open spec fn ffmpeg_filter(is_video: bool, src: (u32, u32), to: (u32, u32)) -> Option<Seq<char>> {
    let scale = "scale="@ + size_text(to.0, to.1, ":"@);
    if is_video {
        if src != to {
            Some("thumbnail=n=20,"@ + scale)
        } else {
            Some("thumbnail=n=20"@)
        }
    } else if src != to {
        Some(scale)
    } else {
        None
    }
}

fn filter_of(is_video: bool, src: (u32, u32), to: (u32, u32)) -> (r: Option<String>)
    ensures
        match (r, ffmpeg_filter(is_video, src, to)) {
            (Some(a), Some(b)) => a@ == b,
            (None, None) => true,
            _ => false,
        },
{
    let differs = src.0 != to.0 || src.1 != to.1;
    let scale = join2("scale=", size_of_text(to.0, to.1, ":").as_str());
    if is_video {
        if differs {
            Some(join2("thumbnail=n=20,", scale.as_str()))
        } else {
            Some(owned("thumbnail=n=20"))
        }
    } else if differs {
        Some(scale)
    } else {
        None
    }
}

/// The arguments with which `ffmpeg` makes a PNG of a frame.
pub open spec fn ffmpeg_call(
    input: Seq<char>,
    output: Seq<char>,
    is_video: bool,
    src: (u32, u32),
    to: (u32, u32),
) -> Seq<Seq<char>> {
    seq!["-v"@, "error"@] + (if is_video {
        seq!["-ss"@, "1"@]
    } else {
        Seq::empty()
    }) + seq!["-i"@, input] + (match ffmpeg_filter(is_video, src, to) {
        Some(f) => seq!["-vf"@, f],
        None => Seq::empty(),
    }) + seq!["-frames:v"@, "1"@, output, "-y"@]
}

/// Lists the arguments with which `ffmpeg` makes a PNG of a frame: of a video
/// the one at one second.
pub fn ffmpeg_args(input: &str, output: &str, is_video: bool, src: (u32, u32), to: (u32, u32)) -> (r:
    Vec<String>)
    ensures
        texts(r@) == ffmpeg_call(input@, output@, is_video, src, to),
{
    let mut a = no_args();
    arg(&mut a, "-v");
    arg(&mut a, "error");
    if is_video {
        arg(&mut a, "-ss");
        arg(&mut a, "1");
    }
    arg(&mut a, "-i");
    arg(&mut a, input);
    if let Some(f) = filter_of(is_video, src, to) {
        arg(&mut a, "-vf");
        push_text(&mut a, f);
    }
    arg(&mut a, "-frames:v");
    arg(&mut a, "1");
    arg(&mut a, output);
    arg(&mut a, "-y");
    assert(texts(a@) =~= ffmpeg_call(input@, output@, is_video, src, to));
    a
}

/// The arguments with which `oiiotool` reports on a file.
pub fn oiiotool_info_args(input: &str) -> (r: Vec<String>)
    ensures
        texts(r@) == seq!["--info"@, "-v"@, input@],
{
    let mut a = no_args();
    arg(&mut a, "--info");
    arg(&mut a, "-v");
    arg(&mut a, input);
    assert(texts(a@) =~= seq!["--info"@, "-v"@, input@]);
    a
}

/// The arguments with which `oiiotool` makes a PNG of a file.
pub open spec fn oiiotool_call(
    input: Seq<char>,
    output: Seq<char>,
    src: (u32, u32),
    to: (u32, u32),
) -> Seq<Seq<char>> {
    seq![input] + (if src != to {
        seq!["--resize"@, size_text(to.0, to.1, "x"@)]
    } else {
        Seq::empty()
    }) + seq!["-o"@, output]
}

/// Lists the arguments with which `oiiotool` makes a PNG of a file.
pub fn oiiotool_args(input: &str, output: &str, src: (u32, u32), to: (u32, u32)) -> (r: Vec<String>)
    ensures
        texts(r@) == oiiotool_call(input@, output@, src, to),
{
    let mut a = no_args();
    arg(&mut a, input);
    if src.0 != to.0 || src.1 != to.1 {
        arg(&mut a, "--resize");
        push_text(&mut a, size_of_text(to.0, to.1, "x"));
    }
    arg(&mut a, "-o");
    arg(&mut a, output);
    assert(texts(a@) =~= oiiotool_call(input@, output@, src, to));
    a
}

/// The message of a tool that failed: the first line that it wrote.
pub fn tool_message(tool: &str, stderr: &str) -> (r: String)
    ensures
        r@ == tool@ + ": "@ + match first_line(stderr@) {
            Some(l) => l,
            None => "(no output)"@,
        },
{
    let first = first_line_or(stderr, "(no output)");
    join3(tool, ": ", first.as_str())
}

/// The report of a tool on a source of these dimensions.
pub fn tool_report(label: &str, width: u32, height: u32) -> (r: RenderOutput)
    ensures
        r.renderer matches Some(l) && l@ == label@,
        r.properties matches Some(p) && p@ == image_entries(
            ImageProps { width, height, bpp: None, alpha: None, lossless: None },
        ),
{
    RenderOutput {
        renderer: Some(owned(label)),
        properties: Some(
            image_props_map(ImageProps { width, height, bpp: None, alpha: None, lossless: None }),
        ),
    }
}

/// What came of a backend that claimed a source.
#[derive(Debug)]
pub enum ToolOutcome {
    /// An image, and what is reported of it.
    Rendered(RenderOutput),
    /// It failed with a message.
    Failed(String),
    /// It broke down.
    Panicked,
}

/// The message under which a cook fails with a backend.
pub open spec fn failure_text(step: Tier3Step, name: Seq<char>, message: Option<Seq<char>>) -> Seq<
    char,
> {
    match (step, message) {
        (Tier3Step::Magick, Some(m)) => m,
        (Tier3Step::Magick, None) => "magick panicked"@,
        (Tier3Step::VideoTool, Some(m)) => m,
        (Tier3Step::VideoTool, None) => "ffmpeg_cli panicked"@,
        (Tier3Step::Geometry, None) => name + ": panicked"@,
        (_, Some(m)) => name + ": "@ + m,
        (_, None) => name + " panicked"@,
    }
}

fn failure_message(step: Tier3Step, name: &str, message: Option<String>) -> (r: String)
    ensures
        r@ == failure_text(
            step,
            name@,
            match message {
                Some(m) => Some(m@),
                None => None,
            },
        ),
{
    match (step, message) {
        (Tier3Step::Magick, Some(m)) => m,
        (Tier3Step::Magick, None) => owned("magick panicked"),
        (Tier3Step::VideoTool, Some(m)) => m,
        (Tier3Step::VideoTool, None) => owned("ffmpeg_cli panicked"),
        (Tier3Step::Geometry, None) => join2(name, ": panicked"),
        (_, Some(m)) => join3(name, ": ", m.as_str()),
        (_, None) => join2(name, " panicked"),
    }
}

/// Takes what came of a backend: an image with its report, or a failure under
/// the backend's name.
pub fn apply_outcome(cook: &mut ThumbCook, step: Tier3Step, name: &str, outcome: ToolOutcome)
    ensures
        match outcome {
            ToolOutcome::Rendered(out) => output_applied(*old(cook), *final(cook), out),
            ToolOutcome::Failed(m) => final(cook).out_message@ == failure_text(
                step,
                name@,
                Some(m@),
            ),
            ToolOutcome::Panicked => final(cook).out_message@ == failure_text(step, name@, None),
        },
        !(outcome is Rendered) ==> *final(cook) == (ThumbCook {
            status: CookStatus::Failed,
            out_message: final(cook).out_message,
            ..*old(cook)
        }),
{
    match outcome {
        ToolOutcome::Rendered(out) => apply_render_output(cook, out),
        ToolOutcome::Failed(m) => cook.fail(failure_message(step, name, Some(m))),
        ToolOutcome::Panicked => cook.fail(failure_message(step, name, None)),
    }
}

/// Bytes of a video that are handed to FFmpeg at most: it can often extract a
/// frame from a truncated file.
pub const VIDEO_READ_CAP: usize = 10485760;

/// Bytes that a handler's scratch directory, and that of an image tool, may hold.
pub const HANDLER_SCRATCH: u64 = 104857600;

/// Bytes that the scratch directory of GraphicsMagick may hold.
pub const MAGICK_SCRATCH: u64 = 52428800;

} // verus!
