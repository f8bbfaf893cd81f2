//! Laws on what is made of probes and of small decisions: which tools are there,
//! in which order names are listed, and when pixels are left alone.
use vstd::arithmetic::power2::pow2;
use vstd::prelude::*;

use crate::fit::{planned, FitScales};
use crate::lines::text_less;
use crate::number::decimal;
use crate::outcome::audio_entries;
use crate::raster::still_twice;
use crate::text::opt_text;
use crate::tier3::env_check::{
    display_entry,
    file_found,
    library_found,
    names_where,
    report_entries,
    tool_found,
    with_builtins,
    with_handlers,
    with_libraries,
    with_tools,
    BackendInfo,
    BackendView,
    EnvProbes,
    FileProbe,
    HandlerDecl,
    ToolProbe,
};

verus! {

/// Texts are ordered by the first character in which they differ, and a text
/// stands before every text that goes on behind it.
pub proof fn law_text_order(p: Seq<char>, x: char, y: char, a: Seq<char>, b: Seq<char>)
    requires
        x < y,
    ensures
        text_less(p + (seq![x] + a), p + (seq![y] + b)),
        !text_less(p + (seq![y] + b), p + (seq![x] + a)),
        text_less(p, p + (seq![x] + a)),
        !text_less(p + (seq![x] + a), p),
        !text_less(p, p),
    decreases p.len(),
{
    let (s, t) = (seq![x] + a, seq![y] + b);
    if p.len() == 0 {
        assert(p + s =~= s && p + t =~= t);
        assert(s[0] == x && t[0] == y);
    } else {
        law_text_order(p.skip(1), x, y, a, b);
        assert((p + s).skip(1) =~= p.skip(1) + s);
        assert((p + t).skip(1) =~= p.skip(1) + t);
        assert((p + s)[0] == p[0] && (p + t)[0] == p[0]);
    }
}

/// Twice the thumbnail is left of a picture that was halved some times exactly if
/// it could be halved once more and would still cover the thumbnail.
pub proof fn law_halved_while_covering(w: u32, h: u32, tw: u32, th: u32, j: nat)
    requires
        tw > 0,
        th > 0,
    ensures
        still_twice(w, h, tw, th, j) <==> {
            &&& w as int / pow2(j) as int / 2 >= tw
            &&& h as int / pow2(j) as int / 2 >= th
        },
{
}

/// A picture is taken as it is only if it would grow by no more than six in a
/// hundred and by no more than eight pixels, and nothing of it would be cut off.
pub proof fn law_taken_as_it_is(w: u32, h: u32, tw: u32, th: u32, s: FitScales, pixel_art: bool)
    ensures
        ({
            let p = planned(w, h, tw, th, s, pixel_art);
            p.trivial <==> {
                &&& !pixel_art
                &&& w <= p.resize_w <= w + 8
                &&& 100 * p.resize_w <= 106 * w
                &&& h <= p.resize_h
                &&& p.crop_w == p.resize_w
                &&& p.crop_h == p.resize_h
            }
        }),
{
}

/// The number of channels is told if there are any, and the duration if it is
/// known; nothing else is.
pub proof fn law_audio_entries(channels: u32, duration: Option<Seq<char>>)
    ensures
        ({
            let m = audio_entries(channels, duration);
            &&& m.dom().contains("channels"@) <==> channels != 0
            &&& channels != 0 ==> m["channels"@] == decimal(channels as nat)
            &&& m.dom().contains("duration"@) <==> duration is Some
            &&& duration is Some ==> m["duration"@] == duration->0
            &&& forall|k: Seq<char>| #[trigger]
                m.dom().contains(k) ==> k == "channels"@ || k == "duration"@
        }),
{
    reveal_strlit("channels");
    reveal_strlit("duration");
    assert("channels"@[0] == 'c' && "duration"@[0] == 'd');
}

/// A handler's command is there if it is a file that anyone may execute: its
/// owner, its group or all others.
pub proof fn law_executable_file(path: Seq<char>, mode: u32)
    ensures
        file_found(path, FileProbe::File { mode }).available <==> (mode / 64 % 2 == 1 || mode / 8
            % 2 == 1 || mode % 2 == 1),
        !file_found(path, FileProbe::Other).available,
        file_found(path, FileProbe::File { mode }).available ==> file_found(
            path,
            FileProbe::File { mode },
        ).details == Some("executable at "@ + path),
{
    assert(mode & 0o111 != 0 <==> (mode / 64 % 2 == 1 || mode / 8 % 2 == 1 || mode % 2 == 1))
        by (bit_vector);
}

/// What was found says why it is not there exactly where it is not: a tool is
/// there if it ran, a library if it could be opened, a display if one is named.
pub proof fn law_found_or_reason(
    binary: Seq<char>,
    arg: Seq<char>,
    p: ToolProbe,
    f: FileProbe,
    soname: Seq<char>,
    error: Option<Seq<char>>,
    x11: Option<Seq<char>>,
    wayland: Option<Seq<char>>,
)
    ensures
        tool_found(binary, arg, p).available <==> p is Ran,
        tool_found(binary, arg, p).available <==> tool_found(binary, arg, p).reason is None,
        file_found(binary, f).available <==> file_found(binary, f).reason is None,
        library_found(soname, error).available <==> error is None,
        library_found(soname, error).available <==> library_found(soname, error).reason is None,
        display_entry(x11, wayland).available <==> x11 is Some || wayland is Some,
        x11 is Some ==> display_entry(x11, wayland) == display_entry(x11, None),
        x11 is None ==> display_entry(x11, wayland) == display_entry(wayland, None),
{
}

/// Each backend is listed under one of two headings, and under the right one.
pub proof fn law_names_parted(list: Seq<BackendInfo>, n: int, i: int)
    requires
        0 <= i < n <= list.len(),
    ensures
        names_where(list, n, list[i].available).contains(list[i].name@),
        names_where(list, n, true).len() + names_where(list, n, false).len() == n,
    decreases n,
{
    let yes = list[i].available;
    let (all, before) = (names_where(list, n, yes), names_where(list, n - 1, yes));
    if i == n - 1 {
        assert(all[all.len() - 1] == list[i].name@);
        lemma_names_counted(list, n - 1);
    } else {
        law_names_parted(list, n - 1, i);
        let k = choose|k: int| 0 <= k < before.len() && before[k] == list[i].name@;
        assert(all[k] == list[i].name@);
    }
}

/// No backend is lost, and none is listed twice.
proof fn lemma_names_counted(list: Seq<BackendInfo>, n: int)
    requires
        0 <= n <= list.len(),
    ensures
        names_where(list, n, true).len() + names_where(list, n, false).len() == n,
    decreases n,
{
    if n > 0 {
        lemma_names_counted(list, n - 1);
    }
}

/// An entry that no handler has the name of is left as it is.
proof fn lemma_handlers_leave(
    m: Map<Seq<char>, BackendView>,
    handlers: Seq<HandlerDecl>,
    probes: Seq<FileProbe>,
    n: int,
    name: Seq<char>,
)
    requires
        0 <= n <= handlers.len(),
        forall|i: int| 0 <= i < n ==> (#[trigger] handlers[i]).name@ != name,
        m.dom().contains(name),
    ensures
        with_handlers(m, handlers, probes, n).dom().contains(name),
        with_handlers(m, handlers, probes, n)[name] == m[name],
    decreases n,
{
    if n > 0 {
        assert(handlers[n - 1].name@ != name);
        lemma_handlers_leave(m, handlers, probes, n - 1, name);
    }
}

/// The last handler of a name has the entry.
proof fn lemma_handler_entry(
    m: Map<Seq<char>, BackendView>,
    handlers: Seq<HandlerDecl>,
    probes: Seq<FileProbe>,
    n: int,
    k: int,
)
    requires
        0 <= k < n <= handlers.len(),
        forall|i: int| k < i < n ==> (#[trigger] handlers[i]).name@ != handlers[k].name@,
    ensures
        with_handlers(m, handlers, probes, n).dom().contains(handlers[k].name@),
        with_handlers(m, handlers, probes, n)[handlers[k].name@].available == file_found(
            handlers[k].command@,
            probes[k],
        ).available,
    decreases n,
{
    if k < n - 1 {
        assert(handlers[n - 1].name@ != handlers[k].name@);
        lemma_handler_entry(m, handlers, probes, n - 1, k);
    }
}

/// A report tells of each handler what was found of its own command, and of each
/// tool whether it ran, unless a handler has taken its name.
pub proof fn law_probes_reported(handlers: Seq<HandlerDecl>, p: EnvProbes, k: int)
    requires
        0 <= k < handlers.len(),
        forall|i: int|
            k < i < handlers.len() ==> (#[trigger] handlers[i]).name@ != handlers[k].name@,
        forall|i: int|
            0 <= i < handlers.len() ==> (#[trigger] handlers[i]).name@ != "display_server"@
                && handlers[i].name@ != "magick"@ && handlers[i].name@ != "oiiotool"@
                && handlers[i].name@ != "ffmpeg_cli"@,
    ensures
        ({
            let m = report_entries(handlers, p);
            &&& m.dom().contains(handlers[k].name@)
            &&& m[handlers[k].name@].available == file_found(
                handlers[k].command@,
                p.handlers@[k],
            ).available
            &&& m.dom().contains("magick"@) && (m["magick"@].available <==> p.gm is Ran)
            &&& m.dom().contains("oiiotool"@) && (m["oiiotool"@].available <==> p.oiiotool is Ran)
            &&& m.dom().contains("ffmpeg_cli"@) && (m["ffmpeg_cli"@].available <==> p.ffmpeg is Ran)
            &&& m.dom().contains("display_server"@)
            &&& m["display_server"@].available <==> (opt_text(p.display) is Some || opt_text(
                p.wayland_display,
            ) is Some)
        }),
{
    let n = handlers.len() as int;
    let libraries = with_libraries(
        with_builtins(Map::<Seq<char>, BackendView>::empty()),
        p.libraries@,
        p.libraries@.len() as int,
    );
    let base = with_tools(libraries, p);
    reveal_strlit("magick");
    reveal_strlit("oiiotool");
    reveal_strlit("ffmpeg_cli");
    reveal_strlit("bwrap");
    reveal_strlit("display_server");
    assert("magick"@[0] == 'm' && "oiiotool"@[0] == 'o' && "ffmpeg_cli"@[0] == 'f' && "bwrap"@[0]
        == 'b' && "display_server"@[0] == 'd');
    assert(handlers[k].name@ != "display_server"@);
    lemma_handler_entry(base, handlers, p.handlers@, n, k);
    lemma_handlers_leave(base, handlers, p.handlers@, n, "magick"@);
    lemma_handlers_leave(base, handlers, p.handlers@, n, "oiiotool"@);
    lemma_handlers_leave(base, handlers, p.handlers@, n, "ffmpeg_cli"@);
}

} // verus!
