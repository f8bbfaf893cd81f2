use std::io::Cursor;

use thumbrella::cook::{CookStatus, ThumbCook};
use thumbrella::diag::{collect_sections, DiagRegistry};
use thumbrella::dispatch::format_manifest;
use thumbrella::media::FileKind;
use thumbrella::tier2::avdecode::{
    ext_to_libav_format, frame_rotation, pick_stream, plan_seek, probe_limit,
    tile_grid_dimensions, FrameEvent, FrameSearch, FrameStage, ReaderState, SeekPlan, StreamInfo,
    TileGroup, AVERROR_EOF, READ_FAILED,
};
use thumbrella::tier2::jpeg::{
    dct_image, decode_jpeg_dct, detect_arithmetic_jpeg, exif_orientation, is_arithmetic_peek,
    read_tiff_orientation, JpegFormat,
};
use thumbrella::tier2::raw::{raw_ifd_jpeg_span, raw_subifd_offsets, RawPreview};
use thumbrella::tier2::renderer::{
    apply_result, decode_image_crate, decode_whole, image_path, isobmff_irot_rotation, plan_render,
    report, tier2_handles_image, CrateRender, ImagePath, Tier2Plan, Tier2Renderer,
};
use thumbrella::tier3::env_check::{
    build_report, cached_report, find_handler, judge_dlopen, judge_executable,
    judge_executable_at, octal_of, probe_environment, register_handler, registered_handlers,
    standard_handlers, summarize, EnvCache, EnvProbes, EnvReport, FileProbe, HandlerDecl,
    HandlerRegistry, LibraryProbe, ToolProbe,
};
use thumbrella::tier3::renderer::{
    apply_outcome, downscale, ffmpeg_args, ffprobe_args, ffprobe_dimensions, geometry_handler,
    gm_convert_args, gm_dimensions, gm_identify_args, handler_properties, has_ffmpeg_cli,
    image_tool, is_oiio_format, magick_applies, oiio_dimensions, oiiotool_args,
    oiiotool_info_args, probed_size, render_steps,
    tool_message, tool_report, ImageTool, Tier3Renderer, Tier3Step, ToolOutcome,
};
use thumbrella::tier3::report::register_tier3_diag;
use thumbrella::tier3::sandbox::{
    cap_last_cap, default_strict, sandbox_steps, Platform, SandboxConfig, SandboxStep,
};

fn s(t: &str) -> String {
    t.to_string()
}

fn jpeg(img: image::DynamicImage) -> Vec<u8> {
    let mut out = Cursor::new(Vec::new());
    img.write_to(&mut out, image::ImageFormat::Jpeg).unwrap();
    out.into_inner()
}

fn rgb(w: u32, h: u32, p: [u8; 3]) -> image::DynamicImage {
    image::DynamicImage::ImageRgb8(image::RgbImage::from_pixel(w, h, image::Rgb(p)))
}

#[test]
fn formats_and_probes_of_libav() {
    assert_eq!(ext_to_libav_format("jpg"), Some("jpeg_pipe"));
    assert_eq!(ext_to_libav_format("zzz"), None);
    assert_eq!(probe_limit(Some("heic")), 131072);
    assert_eq!(probe_limit(Some("mp4")), 262144);
    assert_eq!(probe_limit(None), 262144);
    assert_eq!(frame_rotation(90, 180), 90);
    assert_eq!(frame_rotation(0, -90), 270);
}

#[test]
fn the_whole_image_beats_its_tiles() {
    let v = |w: i32, h: i32| StreamInfo { is_video: true, width: w, height: h };
    assert_eq!(pick_stream(&vec![]), None);
    assert_eq!(pick_stream(&vec![StreamInfo { is_video: false, width: 9, height: 9 }]), None);
    assert_eq!(pick_stream(&vec![v(10, 10), v(20, 20), v(20, 20)]), Some(1));
    assert_eq!(pick_stream(&vec![v(512, 512), v(512, 512), v(512, 512), v(512, 512), v(320, 240)]), Some(4));
    let grid = TileGroup { is_tile_grid: true, width: 0, height: 0, coded_width: 4000, coded_height: 3000 };
    let other = TileGroup { is_tile_grid: false, width: 9000, height: 9000, coded_width: 0, coded_height: 0 };
    assert_eq!(tile_grid_dimensions(&vec![other, grid]), Some((4000, 3000)));
    assert_eq!(tile_grid_dimensions(&vec![other]), None);
}

#[test]
fn reads_and_seeks_are_counted() {
    let mut r = ReaderState::new(Some(1000));
    assert_eq!(r.on_read(64, Some(64)), 64);
    assert_eq!(r.on_read(64, Some(0)), AVERROR_EOF);
    assert_eq!(r.on_read(64, None), READ_FAILED);
    assert_eq!((r.read_calls, r.read_bytes, r.read_errors), (3, 64, 1));
    assert_eq!(r.on_seek(10, 0), SeekPlan::Start(10));
    assert_eq!(r.on_seek_done(Some(10)), 10);
    assert!(r.on_seek_done(None) < 0);
    assert_eq!(plan_seek(0, 0x10000, Some(1000)), SeekPlan::Size(1000));
        assert_eq!(plan_seek(5, 1, None), SeekPlan::Current(5));
    assert_eq!(plan_seek(-5, 2, Some(1000)), SeekPlan::End(-5));
    assert_eq!(plan_seek(0, 77, Some(1000)), SeekPlan::Refuse);
}

#[test]
fn a_search_rewinds_at_most_once() {
    let mut search = FrameSearch::new(true);
    let mut rewinds = 0;
    for _ in 0..4 {
        if search.on_event(FrameEvent::End) {
            rewinds += 1;
        }
        if search.on_event(FrameEvent::Flushed { frame: false }) {
            rewinds += 1;
        }
    }
    assert_eq!(rewinds, 1);
    assert_eq!(search.stage, FrameStage::NotFound);
    let mut lucky = FrameSearch::new(false);
    assert!(!lucky.on_event(FrameEvent::Packet { frame: true }));
    assert_eq!(lucky.stage, FrameStage::Found);
}

#[test]
fn arithmetic_coding_is_detected() {
    assert!(detect_arithmetic_jpeg(&[0xff, 0xd8, 0xff, 0xc9, 0, 2]));
    assert!(!detect_arithmetic_jpeg(&jpeg(rgb(2, 2, [0; 3]))));
    assert!(!is_arithmetic_peek(None));
    assert!(is_arithmetic_peek(Some(&[0xff, 0xd8, 0xff, 0xc9, 0, 2])));
}

fn oriented(o: u16) -> Vec<u8> {
    let mut t = b"MM\0\x2a\0\0\0\x08\0\x01\x01\x12\0\x03\0\0\0\x01".to_vec();
    t.extend_from_slice(&o.to_be_bytes());
    t.extend_from_slice(&[0; 6]);
    t
}

#[test]
fn orientation_is_read_from_exif() {
    assert_eq!(read_tiff_orientation(&oriented(6)), Some(6));
    let mut j = vec![0xff, 0xd8, 0xff, 0xe1];
    let t = oriented(8);
    j.extend_from_slice(&((t.len() + 8) as u16).to_be_bytes());
    j.extend_from_slice(b"Exif\0\0");
    j.extend_from_slice(&t);
    j.extend_from_slice(&jpeg(rgb(2, 2, [0; 3]))[2..]);
    assert_eq!(exif_orientation(&j), 8);
    assert_eq!(exif_orientation(&jpeg(rgb(2, 2, [0; 3]))), 1);
}

#[test]
fn a_jpeg_is_scaled_while_decoding() {
    let bytes = jpeg(rgb(800, 640, [10, 200, 90]));
    let x = decode_jpeg_dct(&bytes, 100, 80).unwrap();
    assert_eq!((x.src_w, x.src_h), (800, 640));
    assert!(x.width < 800 && x.width >= 100, "{}", x.width);
    assert_eq!(x.format, JpegFormat::Rgb24);
    assert_eq!(x.data.len() as u32, x.width * x.height * 3);
    let r = x.into_raster().unwrap();
    for p in r.data.chunks(3) {
        assert!(p[0].abs_diff(10) <= 4 && p[1].abs_diff(200) <= 4 && p[2].abs_diff(90) <= 4);
    }
    assert!(decode_jpeg_dct(b"no jpeg", 100, 80).is_none());
    assert!(dct_image((2, 2, JpegFormat::Rgb24), (2, 2, vec![0; 11])).is_none());
    assert!(dct_image((2, 2, JpegFormat::L8), (2, 2, vec![0; 4])).is_some());
}

#[test]
fn the_image_library_renders_upright() {
    match decode_image_crate(&jpeg(rgb(400, 300, [50; 3])), "jpeg", 100, 100) {
        Some(CrateRender::Ready { image, out }) => {
            assert!(image.width >= 100);
            let props = out.properties.unwrap();
            assert_eq!(props.get("width"), Some("400"));
            assert_eq!(props.get("height"), Some("300"));
        }
        _ => panic!("a picture was expected"),
    }
    let mut png = Cursor::new(Vec::new());
    rgb(6, 4, [1, 2, 3]).write_to(&mut png, image::ImageFormat::Png).unwrap();
    match decode_whole(&png.into_inner(), 6) {
        Some(CrateRender::Ready { image, .. }) => assert_eq!((image.width, image.height), (4, 6)),
        _ => panic!("a picture was expected"),
    }
    assert!(decode_whole(b"none", 1).is_none());
}

#[test]
fn plans_of_the_second_tier() {
    assert_eq!(image_path("png"), ImagePath::ImageCrate);
    assert_eq!(image_path("jxl"), ImagePath::Jxl);
    assert_eq!(image_path("nef"), ImagePath::RawPreview);
    assert_eq!(image_path("jpeg"), ImagePath::Jpeg);
    assert_eq!(image_path("heic"), ImagePath::Libav);
    assert_eq!(plan_render(Some(FileKind::Video), "mp4", None), Tier2Plan::Video);
    assert_eq!(plan_render(Some(FileKind::Vector), "svg", None), Tier2Plan::Vector { svg: true });
    assert_eq!(plan_render(Some(FileKind::Text), "txt", None), Tier2Plan::NotClaimed);
    assert_eq!(
        plan_render(Some(FileKind::Image), "jpeg", Some(&[0xff, 0xd8, 0xff, 0xc9, 0, 2])),
        Tier2Plan::NotClaimed
    );
    for e in ["png", "nef", "jpeg", "heic"] {
        assert!(tier2_handles_image(e), "{e}");
    }
    assert_eq!(Tier2Renderer::new(), *Tier2Renderer::shared());
}

#[test]
fn rotation_properties_turn_in_quarters() {
    for (n, degrees) in [(0u8, 0), (1, 270), (2, 180), (3, 90)] {
        let mut data = vec![0, 0, 0, 9];
        data.extend_from_slice(b"irot");
        data.push(n);
        assert_eq!(isobmff_irot_rotation(&data), degrees);
    }
    assert_eq!(isobmff_irot_rotation(b"none"), 0);
}

#[test]
fn outcomes_reach_the_cook() {
    let mut cook = ThumbCook::new(s("u"));
    apply_result(&mut cook, Some(report("jxl", 10, 20, 24)));
    assert_eq!(cook.media.properties.as_ref().unwrap().get("bpp"), Some("24"));
    let mut lost = ThumbCook::new(s("u"));
    apply_result(&mut lost, None);
    assert_eq!(lost.status, CookStatus::Failed);
    let mut failed = ThumbCook::new(s("u"));
    apply_outcome(&mut failed, Tier3Step::ImageTool, "oiiotool", ToolOutcome::Failed(s("boom")));
    assert_eq!(failed.status, CookStatus::Failed);
    assert_eq!(failed.out_message, "oiiotool: boom");
    assert!(failed.render_renderer.is_none());
    let mut done = ThumbCook::new(s("u"));
    apply_outcome(&mut done, Tier3Step::ImageTool, "oiiotool", ToolOutcome::Rendered(tool_report("oiiotool", 3, 4)));
    assert_eq!(done.media.properties.as_ref().unwrap().get("width"), Some("3"));
}

/// TIFF data whose first directory points at two further ones, each naming a
/// JPEG.
fn raw_file() -> Vec<u8> {
    let mut f = b"II\x2a\0\x08\0\0\0\x01\0".to_vec();
    f.extend_from_slice(&0x14au16.to_le_bytes());
    f.extend_from_slice(&4u16.to_le_bytes());
    f.extend_from_slice(&2u32.to_le_bytes());
    f.extend_from_slice(&26u32.to_le_bytes());
    f.extend_from_slice(&[0; 4]);
    f.extend_from_slice(&33000u32.to_le_bytes());
    f.extend_from_slice(&34000u32.to_le_bytes());
    f.resize(40000, 0);
    let small = jpeg(rgb(8, 8, [1; 3]));
    let big = jpeg(rgb(64, 48, [2; 3]));
    for (dir, at, j) in [(33000usize, 5000u32, &small), (34000, 10000, &big)] {
        let mut d = 3u16.to_le_bytes().to_vec();
        for (tag, value) in [(0x103u16, 7), (0x111, at), (0x117, j.len() as u32)] {
            d.extend_from_slice(&tag.to_le_bytes());
            d.extend_from_slice(&4u16.to_le_bytes());
            d.extend_from_slice(&1u32.to_le_bytes());
            d.extend_from_slice(&value.to_le_bytes());
        }
        d.extend_from_slice(&[0; 4]);
        f[dir..dir + d.len()].copy_from_slice(&d);
        f[at as usize..at as usize + j.len()].copy_from_slice(j);
    }
    f
}

#[test]
fn the_largest_camera_preview_is_decoded() {
    let f = raw_file();
    assert_eq!(raw_subifd_offsets(&f[..32768], true), vec![33000, 34000]);
    assert_eq!(raw_subifd_offsets(&f, true), Vec::<u64>::new());
    assert_eq!(raw_ifd_jpeg_span(&f[33000..33512], true).map(|x| x.0), Some(5000));
    let mut search = RawPreview::new();
    let mut reads = 0;
    while let Some((offset, len)) = search.wants() {
        let from = (offset as usize).min(f.len());
        let to = (from + len).min(f.len());
        search.on_read(Some(f[from..to].to_vec()));
        reads += 1;
        assert!(reads < 20);
    }
    let r = search.finish().unwrap();
    assert_eq!((r.width, r.height), (64, 48));
    assert_eq!((r.image.width, r.image.height), (48, 64));
}

fn probes(ffmpeg: bool) -> EnvProbes {
    let gone = || ToolProbe::NotFound { error: s("not found") };
    EnvProbes {
        libraries: vec![LibraryProbe { name: s("libgl"), category: s("graphics"), soname: s("libGL.so.1"), error: None }],
        ffmpeg: if ffmpeg {
            ToolProbe::Ran { path: s("/usr/bin/ffmpeg"), stdout: s("ffmpeg version 8\nmore") }
        } else {
            gone()
        },
        gm: ToolProbe::Broken { path: s("/usr/bin/gm"), error: s("killed") },
        oiiotool: gone(),
        bwrap: gone(),
        handlers: standard_handlers().iter().map(|_| FileProbe::File { mode: 0o755 }).collect(),
        display: Some(s(":0")),
        wayland_display: None,
    }
}

#[test]
fn a_report_lists_what_is_there() {
    let handlers = standard_handlers();
    let report = build_report(&handlers, &probes(true));
    for name in ["ffmpeg", "image_crate", "resvg", "jxl_oxide", "raw_preview"] {
        assert!(report.backends.iter().any(|b| b.name == name), "{name}");
    }
    assert!(report.is_available("ffmpeg_cli"));
    assert!(report.is_available("libgl"));
    assert!(!report.is_available("oiiotool"));
    assert!(!report.is_available("nothing"));
    assert_eq!(report.summary, summarize(&report.backends));
    assert!(report.backends.windows(2).all(|w| w[0].name < w[1].name));
    let there = report.backends.iter().filter(|b| b.available).count();
    assert!(report.summary.contains(&there.to_string()), "{}", report.summary);
    assert!(has_ffmpeg_cli(Some(&report)));
    assert!(!has_ffmpeg_cli(None));
    assert_eq!(image_tool("tga", Some(&report)), Some(ImageTool::FfmpegCli));
    assert_eq!(image_tool("exr", Some(&report)), None);
    assert!(is_oiio_format("exr"));
    assert!(!magick_applies(Some(&[0xff, 0xd8, 0xff, 0xc9, 0, 2]), Some(&report)));
    let mut cache = EnvCache::new();
    assert!(cached_report(&cache).is_none());
    probe_environment(&mut cache, &handlers, &probes(true));
    probe_environment(&mut cache, &handlers, &probes(false));
    assert!(cached_report(&cache).unwrap().is_available("ffmpeg_cli"));
    let mut registry = DiagRegistry::new();
    register_tier3_diag(&mut registry, &format_manifest(), &handlers, &report);
    assert!(!collect_sections(&registry).is_empty());
    let renderer = Tier3Renderer::new(EnvReport::new());
    assert!(renderer.env.backends.is_empty());
}

#[test]
fn handlers_are_found_by_extension() {
    let mut registry = HandlerRegistry::new();
    assert!(registered_handlers(&registry).is_empty());
    register_handler(
        &mut registry,
        HandlerDecl {
            name: s("blender"),
            category: s("geometry"),
            command: s("/opt/blender.sh"),
            extensions: vec![s("blend"), s("obj")],
            description: s("Blender"),
        },
    );
    let all = registered_handlers(&registry);
    assert_eq!(find_handler(all, "obj"), Some(0));
    assert_eq!(find_handler(all, "fbx"), None);
    assert_eq!(geometry_handler(all, "obj", None), None);
}

#[test]
fn probes_are_worded() {
    let f = judge_dlopen("libGL.so.1", &Some(s("no such file")));
    assert!(!f.available);
    assert!(f.reason.unwrap().contains("no such file"));
    assert!(judge_dlopen("libGL.so.1", &None).available);
    let f = judge_executable("gm", "-version", &ToolProbe::Ran { path: s("/usr/bin/gm"), stdout: s("GM 1\nx") });
    assert!(f.available);
    assert!(f.details.unwrap().contains("GM 1"));
    assert!(!judge_executable("gm", "-version", &ToolProbe::NotFound { error: s("e") }).available);
    assert!(judge_executable_at("/x", &FileProbe::File { mode: 0o755 }).available);
    assert!(!judge_executable_at("/x", &FileProbe::File { mode: 0o644 }).available);
    assert!(!judge_executable_at("/x", &FileProbe::Other).available);
    assert!(!judge_executable_at("/x", &FileProbe::Missing { error: s("e") }).available);
    assert_eq!(octal_of(0o100644), format!("{:o}", 0o100644));
    assert_eq!(octal_of(0), "0");
}

#[test]
fn probe_reports_give_the_size_of_a_stream() {
    let report = b"{\"streams\":[{\"width\":640,\"height\":360}]}";
    assert_eq!(probed_size(report), Ok((640, 360)));
    assert!(probed_size(b"{\"streams\":[]}").is_err());
    assert!(probed_size(b"{}").is_err());
    assert!(probed_size(b"{").unwrap_err().starts_with("ffprobe json: "));
}

#[test]
fn handlers_give_properties_as_json() {
    let map = handler_properties(Some("{\"faces\":12,\"name\":\"cube\"}")).unwrap();
    assert_eq!(map.get("faces"), Some("12"));
    assert_eq!(map.get("name"), Some("\"cube\""));
    assert!(handler_properties(Some("[1]")).unwrap().get("faces").is_none());
    assert!(handler_properties(Some("{")).is_none());
    assert!(handler_properties(None).is_none());
}

#[test]
fn steps_of_the_third_tier() {
    assert_eq!(render_steps(Some(FileKind::Geometry), "obj", false), vec![Tier3Step::Geometry]);
    assert_eq!(render_steps(Some(FileKind::Image), "jpeg", false), vec![Tier3Step::Magick, Tier3Step::Tier2]);
    assert_eq!(render_steps(Some(FileKind::Video), "mp4", false), vec![Tier3Step::Tier2, Tier3Step::VideoTool]);
    for kind in [FileKind::Image, FileKind::Video, FileKind::Audio, FileKind::Vector] {
        assert!(!render_steps(Some(kind), "x", true).contains(&Tier3Step::Tier2), "{kind:?}");
    }
}

#[test]
fn sources_are_scaled_by_powers_of_two() {
    assert_eq!(downscale(512, 100), (512, 100));
    assert_eq!(downscale(513, 100), (256, 50));
    assert_eq!(downscale(4000, 3000), (500, 375));
    for long in [513u32, 1024, 5000, 65535, u32::MAX] {
        let (w, _) = downscale(long, 1);
        assert!((256..=512).contains(&w), "{long} {w}");
    }
}

#[test]
fn tool_outputs_are_read() {
    assert_eq!(gm_dimensions("640 480\n"), Ok((640, 480)));
    assert!(gm_dimensions("640").unwrap_err().starts_with("gm identify: unexpected output"));
    assert!(gm_dimensions("x 480").unwrap_err().starts_with("gm identify width"));
    assert!(gm_dimensions("640 y").unwrap_err().starts_with("gm identify height"));
    assert_eq!(ffprobe_dimensions(&Some(vec![(Some(3), Some(4))])), Ok((3, 4)));
    assert_eq!(ffprobe_dimensions(&None), Err(s("ffprobe: no streams")));
    assert_eq!(ffprobe_dimensions(&Some(vec![])), Err(s("ffprobe: no video stream")));
    assert_eq!(ffprobe_dimensions(&Some(vec![(Some(3), None)])), Err(s("ffprobe: zero dimensions")));
    assert_eq!(oiio_dimensions("a.exr : 2048 x 1080, 4 channel, half openexr"), Ok((2048, 1080)));
    assert!(oiio_dimensions("nothing").is_err());
    assert!(tool_message("gm", "bad\nworse").contains("gm"));
}

#[test]
fn tool_arguments_name_input_and_output() {
    for args in [gm_identify_args("in"), ffprobe_args("in"), oiiotool_info_args("in")] {
        assert!(args.iter().any(|a| a.contains("in")));
    }
    assert!(gm_convert_args("in", 30, 20, "out").iter().any(|a| a.contains("30x20")));
    let still = ffmpeg_args("in", "out", false, (100, 100), (50, 50));
    assert!(still.iter().any(|a| a == "out"));
    assert!(still.iter().any(|a| a.contains("50")));
    let same = oiiotool_args("in", "out", (50, 50), (50, 50));
    let half = oiiotool_args("in", "out", (100, 100), (50, 50));
    assert!(half.len() >= same.len());
}

#[test]
fn the_sandbox_follows_its_configuration() {
    let steps = sandbox_steps(Platform::Linux, &default_strict());
    assert!(steps.contains(&SandboxStep::NoNewPrivileges));
    assert!(steps.contains(&SandboxStep::DropCapabilities));
    assert!(steps.contains(&SandboxStep::NoCoreDumps));
    let open = SandboxConfig {
        max_memory: 0,
        max_fds: 0,
        allow_core_dumps: true,
        drop_capabilities: false,
        needs_networking: true,
    };
    for step in sandbox_steps(Platform::Linux, &open) {
        assert!(!matches!(step, SandboxStep::OpenFiles(_) | SandboxStep::AddressSpace(_)));
        assert_ne!(step, SandboxStep::DropCapabilities);
    }
    assert_eq!(cap_last_cap(Some("40\n")), 40);
    assert_eq!(cap_last_cap(None), 40);
}
