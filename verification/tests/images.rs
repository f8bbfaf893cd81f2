use std::io::Cursor;

use thumbrella::decode::{
    apply_exif_orientation, apply_rotation, decode_image, degrees_mod_360, oriented_image,
    turn_upright, undo_quarter_turn,
};
use thumbrella::deliver::{
    composite_rgba_onto, encode_jpeg, encode_thumbnail, inject_exif_comment, is_pixel_art,
    make_canvas, place_on_canvas, premultiply_rgba, retry_quality, splice_exif,
    unpremultiply_rgba, EncodeError, SIZE_CAP,
};
use thumbrella::fit::{crop, fit_by_plan, fit_to_target, plan_fit, FitPlan, FitScales};
use thumbrella::inspect::{
    find_sof_in_bytes, inspect, inspect_image_properties, is_lossless, jpeg_app_segments_end,
    jpeg_sof_dimensions, sniff,
    sniff_svg, url_extension,
};
use thumbrella::media::FileKind;
use thumbrella::props::image_props_map;
use thumbrella::raster::{
    box_half, color_bits_per_pixel, halve_times, image_properties, pre_scale_steps, ColorInfo,
    Raster,
};

fn png(img: image::DynamicImage) -> Vec<u8> {
    let mut out = Cursor::new(Vec::new());
    img.write_to(&mut out, image::ImageFormat::Png).unwrap();
    out.into_inner()
}

fn jpeg(img: image::DynamicImage) -> Vec<u8> {
    let mut out = Cursor::new(Vec::new());
    img.write_to(&mut out, image::ImageFormat::Jpeg).unwrap();
    out.into_inner()
}

/// Two pixels by one: red, then blue.
fn red_blue() -> image::DynamicImage {
    image::DynamicImage::ImageRgb8(
        image::RgbImage::from_raw(2, 1, vec![255, 0, 0, 0, 0, 255]).unwrap(),
    )
}

#[test]
fn decoding_gives_the_pixels() {
    let img = decode_image(&png(red_blue())).unwrap();
    assert_eq!((img.width, img.height), (2, 1));
    assert_eq!(img.color, ColorInfo { channel_count: 3, bits_per_pixel: 24, has_alpha: false });
    let r = img.into_raster();
    assert_eq!((r.width, r.height, r.channels), (2, 1, 3));
    assert_eq!(r.data, vec![255, 0, 0, 0, 0, 255]);
    assert!(decode_image(b"no image").is_none());
}

#[test]
fn grey_is_repeated_over_the_three_channels() {
    let grey: Vec<u8> = (0..=255).collect();
    let bytes = png(image::DynamicImage::ImageLuma8(image::GrayImage::from_raw(256, 1, grey).unwrap()));
    let r = decode_image(&bytes).unwrap().into_raster();
    for i in 0..256usize {
        assert_eq!(&r.data[i * 3..i * 3 + 3], [i as u8; 3]);
    }
}

#[test]
fn alpha_is_kept() {
    let bytes = png(image::DynamicImage::ImageRgba8(
        image::RgbaImage::from_raw(1, 1, vec![10, 20, 30, 40]).unwrap(),
    ));
    let img = decode_image(&bytes).unwrap();
    assert!(img.color.has_alpha);
    let r = img.into_raster();
    assert_eq!(r.channels, 4);
    assert_eq!(r.data, vec![10, 20, 30, 40]);
}

#[test]
fn turning_clockwise() {
    let at = |deg: i32| apply_rotation(decode_image(&png(red_blue())).unwrap(), deg).into_raster();
    let quarter = at(90);
    assert_eq!((quarter.width, quarter.height), (1, 2));
    assert_eq!(quarter.data, vec![255, 0, 0, 0, 0, 255]);
    assert_eq!(at(180).data, vec![0, 0, 255, 255, 0, 0]);
    let back = at(-90);
    assert_eq!((back.width, back.height), (1, 2));
    assert_eq!(back.data, vec![0, 0, 255, 255, 0, 0]);
    assert_eq!(at(45).data, vec![255, 0, 0, 0, 0, 255]);
    assert_eq!(at(450).data, quarter.data);
    assert_eq!(degrees_mod_360(-90), 270);
    assert_eq!(degrees_mod_360(i32::MIN), i32::MIN.rem_euclid(360));
}

#[test]
fn a_quarter_turn_is_undone() {
    let img = decode_image(&png(red_blue())).unwrap();
    let back = undo_quarter_turn(apply_rotation(img, 90)).into_raster();
    assert_eq!((back.width, back.height), (2, 1));
    assert_eq!(back.data, vec![255, 0, 0, 255, 0, 0, 255, 255]);
}

/// The eight ways a camera can be held, as the image library itself undoes
/// them, on a picture without symmetry.
#[test]
fn orientations_match_the_image_library() {
    let data: Vec<u8> = (0..3 * 2 * 3).map(|i| (i * 13 % 256) as u8).collect();
    let raw = || image::DynamicImage::ImageRgb8(image::RgbImage::from_raw(3, 2, data.clone()).unwrap());
    for o in 1..=8u8 {
        let mut expected = raw();
        expected.apply_orientation(image::metadata::Orientation::from_exif(o).unwrap());
        let expected = expected.to_rgb8();
        let got = apply_exif_orientation(decode_image(&png(raw())).unwrap(), o).into_raster();
        assert_eq!((got.width, got.height), expected.dimensions(), "{o}");
        assert_eq!(got.data, expected.into_raw(), "{o}");
    }
    let same = apply_exif_orientation(decode_image(&png(raw())).unwrap(), 9).into_raster();
    assert_eq!(same.data, data);
    let upright = turn_upright(decode_image(&png(raw())).unwrap(), 6).into_raster();
    assert_eq!((upright.width, upright.height), (2, 3));
}

#[test]
fn raw_samples_become_an_upright_picture() {
    let grey = Raster::from_raw(2, 1, 1, vec![7, 200]).unwrap();
    let img = oriented_image(grey, 3).unwrap().into_raster();
    assert_eq!(img.data, vec![200, 200, 200, 7, 7, 7]);
    assert!(Raster::from_raw(2, 1, 3, vec![0; 5]).is_none());
}

#[test]
fn halving_averages_blocks() {
    let img = Raster::from_raw(4, 2, 1, vec![10, 20, 0, 255, 30, 40, 255, 0]).unwrap();
    let half = box_half(img);
    assert_eq!((half.width, half.height), (2, 1));
    assert_eq!(half.data[0], 25);
    assert!(half.data[1] == 127 || half.data[1] == 128);
    let row = box_half(Raster::from_raw(3, 1, 1, vec![1, 2, 3]).unwrap());
    assert_eq!((row.width, row.height), (3, 1));
}

#[test]
fn halving_stops_at_twice_the_target() {
    assert_eq!(pre_scale_steps(4000, 3000, 250, 200), 2);
    assert_eq!(pre_scale_steps(4000, 3200, 250, 200), 3);
    assert_eq!(pre_scale_steps(499, 400, 250, 200), 0);
    assert_eq!(pre_scale_steps(500, 400, 250, 200), 0);
    assert_eq!(pre_scale_steps(1000, 800, 250, 200), 1);
    let img = Raster::from_raw(9, 8, 3, vec![50; 216]).unwrap();
    let small = halve_times(img, 2);
    assert_eq!((small.width, small.height), (2, 2));
    assert_eq!(small.data, vec![50; 12]);
}

#[test]
fn colour_bits_leave_alpha_out() {
    assert_eq!(color_bits_per_pixel(ColorInfo { channel_count: 4, bits_per_pixel: 32, has_alpha: true }), 24);
    assert_eq!(color_bits_per_pixel(ColorInfo { channel_count: 3, bits_per_pixel: 48, has_alpha: false }), 48);
    let p = image_properties(640, 480, ColorInfo { channel_count: 4, bits_per_pixel: 32, has_alpha: true });
    assert_eq!((p.width, p.height, p.bpp, p.alpha), (640, 480, Some(24), Some(true)));
    let map = image_props_map(p);
    assert_eq!(map.get("width"), Some("640"));
    assert_eq!(map.get("height"), Some("480"));
    assert_eq!(map.get("bpp"), Some("24"));
    assert_eq!(map.get("alpha"), Some("true"));
}

#[test]
fn premultiplied_samples_round_and_come_back() {
    let mut img = Raster::from_raw(2, 1, 4, vec![200, 100, 50, 128, 9, 8, 7, 255]).unwrap();
    premultiply_rgba(&mut img);
    assert_eq!(img.data, vec![100, 50, 25, 128, 9, 8, 7, 255]);
    unpremultiply_rgba(&mut img);
    assert_eq!(&img.data[4..], [9, 8, 7, 255]);
    assert_eq!(img.data[3], 128);
    assert!(img.data[0].abs_diff(200) <= 1);
}

#[test]
fn compositing_blends_over_the_canvas() {
    let mut dst = make_canvas(2, 1, [100, 100, 100], None);
    let src = Raster::from_raw(1, 1, 4, vec![200, 0, 100, 128]).unwrap();
    composite_rgba_onto(&src, &mut dst, 1, 0);
    assert_eq!(&dst.data[..3], [100, 100, 100]);
    assert_eq!(dst.data[3], 150);
    assert_eq!(dst.data[4], 50);
    assert_eq!(dst.data[5], 100);
}

#[test]
fn content_is_centred() {
    let content = Raster::from_raw(1, 1, 3, vec![1, 2, 3]).unwrap();
    let r = place_on_canvas(content, 3, 3, [9, 9, 9], None);
    assert_eq!((r.width, r.height, r.channels), (3, 3, 3));
    assert_eq!(&r.data[12..15], [1, 2, 3]);
    assert_eq!(r.data.iter().filter(|b| **b == 9).count(), 24);
}

#[test]
fn a_thumbnail_is_a_small_jpeg_with_exif() {
    let img = Raster::from_raw(16, 16, 3, vec![120; 768]).unwrap();
    let plain = encode_jpeg(&img, 80).unwrap();
    assert_eq!(&plain[..2], [0xff, 0xd8]);
    let thumb = encode_thumbnail(&img, 80).unwrap();
    assert!(thumb.len() <= SIZE_CAP);
    assert_eq!(&thumb[2..4], [0xff, 0xe1]);
    let back = decode_image(&thumb).unwrap();
    assert_eq!((back.width, back.height), (16, 16));
    for b in back.into_raster().data {
        assert!(b.abs_diff(120) <= 3);
    }
    let rgba = Raster::from_raw(1, 1, 4, vec![0; 4]).unwrap();
    assert_eq!(encode_jpeg(&rgba, 80).unwrap_err(), EncodeError::NotComposited);
}

#[test]
fn quality_changes_the_size() {
    let data: Vec<u8> = (0..64 * 64 * 3u32).map(|i| (i.wrapping_mul(2654435761) >> 24) as u8).collect();
    let img = Raster::from_raw(64, 64, 3, data).unwrap();
    let low = encode_jpeg(&img, 20).unwrap();
    let high = encode_jpeg(&img, 90).unwrap();
    assert!(low.len() < high.len());
}

#[test]
fn the_exif_segment_reads_back() {
    let marked = inject_exif_comment(&[0xff, 0xd8, 0xff, 0xd9]);
    let exif = exif::Reader::new().read_from_container(&mut Cursor::new(&marked)).unwrap();
    let field = |t| exif.get_field(t, exif::In::PRIMARY).unwrap();
    assert_eq!(field(exif::Tag::Orientation).value.get_uint(0), Some(1));
    match &field(exif::Tag::Software).value {
        exif::Value::Ascii(v) => assert!(!v[0].is_empty()),
        other => panic!("unexpected {other:?}"),
    }
    assert_eq!(&marked[marked.len() - 2..], [0xff, 0xd9]);
    assert_eq!(splice_exif(b"plain", b"II"), b"plain".to_vec());
    assert_eq!(inject_exif_comment(b"plain"), b"plain".to_vec());
}

#[test]
fn the_retry_quality_is_four_tenths() {
    assert_eq!(retry_quality(SIZE_CAP, 80), None);
    assert_eq!(retry_quality(SIZE_CAP + 1, 10), None);
    for q in 11..=255u8 {
        let expected = ((q as f32 * 0.4) as u8).max(10);
        assert_eq!(retry_quality(SIZE_CAP + 1, q), Some(expected), "{q}");
    }
}

#[test]
fn cropping_takes_the_window() {
    let img = Raster::from_raw(3, 2, 1, vec![1, 2, 3, 4, 5, 6]).unwrap();
    let c = crop(&img, 1, 0, 2, 2);
    assert_eq!((c.width, c.height), (2, 2));
    assert_eq!(c.data, vec![2, 3, 5, 6]);
}

#[test]
fn fitting_resizes_then_crops() {
    let img = Raster::from_raw(4, 4, 3, vec![90; 48]).unwrap();
    let plan = FitPlan { resize_w: 2, resize_h: 2, crop_w: 2, crop_h: 1, crop_y: 0, trivial: false };
    let r = fit_by_plan(img, plan, false);
    assert_eq!((r.width, r.height), (2, 1));
    assert_eq!(r.data, vec![90; 6]);
    let dots = Raster::from_raw(2, 1, 3, vec![0, 0, 0, 255, 255, 255]).unwrap();
    let plan = FitPlan { resize_w: 4, resize_h: 2, crop_w: 4, crop_h: 2, crop_y: 0, trivial: false };
    let sharp = fit_by_plan(dots, plan, true);
    assert_eq!((sharp.width, sharp.height), (4, 2));
    assert_eq!(&sharp.data[..12], [0, 0, 0, 0, 0, 0, 255, 255, 255, 255, 255, 255]);
}

fn scales(min: (u32, u32), fit: (u32, u32), wide_w: u32, tall_h: u32, fill: (u32, u32)) -> FitScales {
    FitScales {
        min_w: min.0,
        min_h: min.1,
        fit_w: fit.0,
        fit_h: fit.1,
        wide_w,
        tall_h,
        fill_w: fill.0,
        fill_h: fill.1,
    }
}

#[test]
fn extreme_shapes_are_cropped_to_the_target() {
    // 1000 × 100 into 250 × 200: 25 rows would be left, so 100 rows are kept.
    let wide = scales((125, 100), (250, 25), 1000, 13, (294, 29));
    assert_eq!(
        plan_fit(1000, 100, 250, 200, &wide, false),
        FitPlan { resize_w: 1000, resize_h: 100, crop_w: 250, crop_h: 100, crop_y: 0, trivial: false },
    );
    // 100 × 1000: 20 columns would be left, so 125 are kept, and a quarter of the
    // rows too many goes at the top.
    let tall = scales((125, 100), (20, 200), 10, 1250, (24, 235));
    assert_eq!(
        plan_fit(100, 1000, 250, 200, &tall, false),
        FitPlan { resize_w: 125, resize_h: 1250, crop_w: 125, crop_h: 200, crop_y: 262, trivial: false },
    );
    // 400 × 300 fills the target.
    let photo = scales((125, 100), (250, 188), 133, 94, (267, 200));
    assert_eq!(
        plan_fit(400, 300, 250, 200, &photo, false),
        FitPlan { resize_w: 267, resize_h: 200, crop_w: 250, crop_h: 200, crop_y: 0, trivial: false },
    );
    // 245 × 196 is as good as there; pixel art is brought to size all the same.
    let close = scales((125, 100), (250, 200), 125, 100, (250, 200));
    assert!(plan_fit(245, 196, 250, 200, &close, false).trivial);
    assert!(!plan_fit(245, 196, 250, 200, &close, true).trivial);
    assert!(!plan_fit(241, 193, 250, 200, &close, false).trivial);
}

#[test]
fn fitting_stays_within_the_target() {
    let img = Raster::from_raw(20, 2, 3, vec![90; 120]).unwrap();
    let wide = scales((3, 3), (5, 1), 30, 1, (6, 1));
    let r = fit_to_target(img, 5, 5, &wide, false).unwrap();
    assert_eq!((r.width, r.height, r.channels), (5, 3, 3));
    assert_eq!(r.data, vec![90; 45]);
}

#[test]
fn very_wide_sources_are_resized_and_cropped() {
    let img = Raster::from_raw(30_000, 1, 3, vec![90; 90_000]).unwrap();
    let wide = scales((5, 2), (10, 1), 60_000, 1, (12, 1));
    let r = fit_to_target(img, 10, 4, &wide, false).unwrap();
    assert_eq!((r.width, r.height), (10, 2));
    assert_eq!(r.data, vec![90; 60]);
    let img = Raster::from_raw(30_000, 1, 3, vec![90; 90_000]).unwrap();
    let wider = scales((1, 1), (10, 1), 1, 1, (3_000_000, 1));
    let r = fit_to_target(img, 10, 4, &wider, true).unwrap();
    assert_eq!((r.width, r.height), (10, 1));
}

#[test]
fn nothing_to_fit_leaves_a_black_image() {
    let none = scales((0, 0), (0, 0), 0, 0, (0, 0));
    let empty = Raster::from_raw(0, 7, 4, Vec::new()).unwrap();
    let r = fit_to_target(empty, 3, 2, &none, false).unwrap();
    assert_eq!((r.width, r.height, r.channels), (3, 2, 3));
    assert_eq!(r.data, vec![0; 18]);
    let img = Raster::from_raw(1, 1, 3, vec![90; 3]).unwrap();
    let r = fit_to_target(img, 0, 2, &none, false).unwrap();
    assert_eq!((r.width, r.height), (1, 2));
}

#[test]
fn a_size_beyond_memory_is_not_made() {
    let img = Raster::from_raw(1, 1, 3, vec![90; 3]).unwrap();
    let huge = scales((1, 1), (1, 1), 1, 1, (u32::MAX, u32::MAX));
    assert!(fit_to_target(img, 5, 5, &huge, false).is_none());
}

#[test]
fn pixel_art_is_small_and_whole() {
    assert!(is_pixel_art(32, 32, false, 64));
    assert!(!is_pixel_art(32, 32, true, 64));
    assert!(!is_pixel_art(640, 480, false, 64));
}

#[test]
fn content_decides_over_the_name() {
    let bytes = png(red_blue());
    assert_eq!(sniff(&bytes, "https://e.com/a.jpg", None), (FileKind::Image, "image/png".to_string(), "png".to_string()));
    assert_eq!(sniff(b"", "https://e.com/a.mp4?x=1", None).0, FileKind::Video);
    assert_eq!(sniff(b"??", "https://e.com/a", Some("audio/mpeg")).0, FileKind::Audio);
    assert!(sniff_svg(b"<?xml version=\"1.0\"?><svg xmlns=\"x\">"));
    assert!(!sniff_svg(b"<svgx>"));
    assert_eq!(url_extension("https://e.com/A.JPG?x#y"), Some("jpeg".to_string()));
    assert_eq!(url_extension("https://e.com/a"), None);
}

#[test]
fn app_segments_end_before_the_tables() {
    let head = [0xFF, 0xD8, 0xFF, 0xE0, 0, 4, 1, 2, 0xFF, 0xDB, 0, 2];
    assert_eq!(jpeg_app_segments_end(&head), Some(8));
    assert_eq!(jpeg_app_segments_end(&[0xFF, 0xD8, 0xFF, 0xDA, 0, 8]), None);
    assert_eq!(jpeg_app_segments_end(&[0xFF, 0xD8]), None);
}

#[test]
fn headers_give_dimensions() {
    let bytes = jpeg(image::DynamicImage::ImageRgb8(image::RgbImage::new(30, 20)));
    assert_eq!(find_sof_in_bytes(&bytes).map(|d| (d.0, d.1)), Some((30, 20)));
    assert_eq!(jpeg_sof_dimensions(&bytes), Some((30, 20, 24)));
    let props = inspect_image_properties(&png(red_blue())).unwrap();
    assert_eq!((props.width, props.height), (2, 1));
    assert_eq!(props.lossless, Some(true));
    assert_eq!(props.alpha, Some(false));
    assert!(inspect_image_properties(b"no image").is_none());
    assert!(is_lossless("png"));
    assert!(!is_lossless("jpeg"));
    let seen = inspect(&png(red_blue()), "https://e.com/a.png", None);
    assert_eq!(seen.kind, FileKind::Image);
    assert_eq!(seen.extension, "png");
    assert_eq!(seen.image.unwrap().width, 2);
}
