use std::io::{Cursor, Write};

use thumbrella::media::FileKind;
use thumbrella::shortcut::audio::{
    audio_scan, extract_apic_image, find_id3_apic, is_valid_frame_id, parse_first_mp3_frame,
    parse_id3_header, parse_mp3_frame_header, synchsafe_u32,
};
use thumbrella::shortcut::exif::{find_jpeg_exif_shortcut, webp_dimensions};
use thumbrella::shortcut::steps::{
    close_partial, is_jpeg_start, plan_progressive, progressive_partial_read_bytes, render_audio,
    render_preview, render_small, render_zip, shortcut, Attempt, AudioRender, ExifShortcut,
    RawShortcut, WebpShortcut,
};
use thumbrella::shortcut::tiff::{
    find_tiff_embedded_jpeg_span, parse_tiff_exif_thumbnail, read_tiff_header, tiff_byte_order,
    tiff_ifd0_dimensions, tiff_ifd0_orientation,
};
use thumbrella::shortcut::zip::{
    zip_after_entry, zip_after_tail, zip_extract_from_buffer, zip_find_eocd, zip_find_thumb_entry,
    zip_inflate, zip_tail_read, zip_u16, zip_u32, ZipEntry, ZipStep, ZipTailRead,
};

fn jpeg(w: u32, h: u32) -> Vec<u8> {
    let mut out = Cursor::new(Vec::new());
    image::DynamicImage::ImageRgb8(image::RgbImage::new(w, h))
        .write_to(&mut out, image::ImageFormat::Jpeg)
        .unwrap();
    out.into_inner()
}

fn png(w: u32, h: u32) -> Vec<u8> {
    let mut out = Cursor::new(Vec::new());
    image::DynamicImage::ImageRgb8(image::RgbImage::new(w, h))
        .write_to(&mut out, image::ImageFormat::Png)
        .unwrap();
    out.into_inner()
}

fn deflate(data: &[u8]) -> Vec<u8> {
    let mut e = flate2::write::DeflateEncoder::new(Vec::new(), flate2::Compression::best());
    e.write_all(data).unwrap();
    e.finish().unwrap()
}

fn le16(v: usize) -> [u8; 2] {
    (v as u16).to_le_bytes()
}

fn le32(v: usize) -> [u8; 4] {
    (v as u32).to_le_bytes()
}

/// A ZIP archive with one entry.
fn zip_with(name: &str, method: u16, stored: &[u8], full: usize) -> Vec<u8> {
    let mut z = Vec::new();
    z.extend_from_slice(b"PK\x03\x04");
    z.extend_from_slice(&le16(20));
    z.extend_from_slice(&le16(0));
    z.extend_from_slice(&le16(method as usize));
    z.extend_from_slice(&[0; 8]);
    z.extend_from_slice(&le32(stored.len()));
    z.extend_from_slice(&le32(full));
    z.extend_from_slice(&le16(name.len()));
    z.extend_from_slice(&le16(0));
    z.extend_from_slice(name.as_bytes());
    z.extend_from_slice(stored);
    let dir = z.len();
    z.extend_from_slice(b"PK\x01\x02");
    z.extend_from_slice(&le16(20));
    z.extend_from_slice(&le16(20));
    z.extend_from_slice(&le16(0));
    z.extend_from_slice(&le16(method as usize));
    z.extend_from_slice(&[0; 8]);
    z.extend_from_slice(&le32(stored.len()));
    z.extend_from_slice(&le32(full));
    z.extend_from_slice(&le16(name.len()));
    z.extend_from_slice(&[0; 12]);
    z.extend_from_slice(&le32(0));
    z.extend_from_slice(name.as_bytes());
    let size = z.len() - dir;
    z.extend_from_slice(b"PK\x05\x06");
    z.extend_from_slice(&[0; 4]);
    z.extend_from_slice(&le16(1));
    z.extend_from_slice(&le16(1));
    z.extend_from_slice(&le32(size));
    z.extend_from_slice(&le32(dir));
    z.extend_from_slice(&le16(0));
    z
}

#[test]
fn inflating_undoes_deflating() {
    let data = b"thumbrella thumbrella thumbrella".to_vec();
    assert_eq!(zip_inflate(&deflate(&data), data.len()), Some(data.clone()));
    assert!(zip_inflate(b"\xff\xff\xff\xff", 10).is_none());
}

#[test]
fn the_preview_of_a_document_is_found() {
    let picture = png(3, 2);
    for (method, stored) in [(0u16, picture.clone()), (8, deflate(&picture))] {
        let z = zip_with("Thumbnails/thumbnail.png", method, &stored, picture.len());
        assert!(zip_find_eocd(&z).is_some());
        let entry = zip_find_thumb_entry(&z, 0).unwrap();
        assert_eq!(entry.method, method);
        assert_eq!(entry.uncomp_size, picture.len() as u64);
        assert_eq!(zip_extract_from_buffer(&z, &entry, 0), Some(picture.clone()));
        match zip_after_tail(&z, 0) {
            ZipStep::Image(bytes) => assert_eq!(bytes, picture),
            other => panic!("unexpected {other:?}"),
        }
        assert_eq!(zip_after_entry(&z, &entry), Some(picture.clone()));
    }
    assert!(zip_find_thumb_entry(&zip_with("other.txt", 0, b"x", 1), 0).is_none());
    assert!(zip_find_eocd(b"no archive").is_none());
    let r = render_zip(&picture, Some(FileKind::Document)).unwrap();
    assert_eq!((r.image.width, r.image.height), (3, 2));
    assert!(render_zip(b"no picture", None).is_none());
}

#[test]
fn a_tail_is_read_where_ranges_work() {
    assert_eq!(zip_tail_read(None, true, 100), ZipTailRead::GiveUp);
    assert_eq!(zip_tail_read(Some(1000), true, 100), ZipTailRead::Range { start: 900, len: 100 });
    assert_eq!(zip_tail_read(Some(80), true, 100), ZipTailRead::Whole { len: 80 });
    assert_eq!(zip_u16(&[1, 2], 0), 0x201);
    assert_eq!(zip_u32(&[1, 2, 3, 4], 0), 0x4030201);
    assert_eq!(zip_u16(&[1], 0), 0);
    assert!(zip_after_entry(&[], &ZipEntry { local_offset: 0, comp_size: 1, uncomp_size: 1, method: 0 }).is_none());
}

#[test]
fn id3_headers_and_frames() {
    assert_eq!(synchsafe_u32(&[0, 0, 2, 1]), 257);
    let header = parse_id3_header(&[b'I', b'D', b'3', 3, 0, 0x40, 0, 0, 2, 1]).unwrap();
    assert_eq!(header.version_major, 3);
    assert_eq!(header.tag_size, 257);
    assert!(header.has_extended_header);
    assert!(parse_id3_header(b"ID4").is_none());
    assert!(is_valid_frame_id(b"APIC"));
    assert!(!is_valid_frame_id(b"aPIC"));
}

/// An ID3v2.3 tag with one attached picture.
fn tag_with(picture: &[u8]) -> Vec<u8> {
    let mut body = vec![0];
    body.extend_from_slice(b"image/jpeg\0");
    body.push(3);
    body.extend_from_slice(b"cover\0");
    body.extend_from_slice(picture);
    let mut frame = b"APIC".to_vec();
    frame.extend_from_slice(&(body.len() as u32).to_be_bytes());
    frame.extend_from_slice(&[0, 0]);
    frame.extend_from_slice(&body);
    frame
}

#[test]
fn the_cover_of_a_song_is_found() {
    let picture = jpeg(5, 4);
    let frame = tag_with(&picture);
    assert_eq!(extract_apic_image(&frame[10..]), Some(picture.clone()));
    let n = frame.len();
    let mut tag = b"ID3\x03\0\0".to_vec();
    tag.extend_from_slice(&[
        (n >> 21 & 127) as u8, (n >> 14 & 127) as u8, (n >> 7 & 127) as u8, (n & 127) as u8,
    ]);
    tag.extend_from_slice(&frame);
    assert_eq!(find_id3_apic(&tag, 3), Some(picture.clone()));
    assert_eq!(find_id3_apic(&frame, 3), None);
    let scan = audio_scan(&tag, tag.len() as u64);
    assert_eq!(scan.cover, Some(picture));
    match render_audio(&scan) {
        AudioRender::Cover(r) => assert_eq!((r.image.width, r.image.height), (5, 4)),
        _ => panic!("the cover was expected"),
    }
}

#[test]
fn the_length_of_audio_is_bits_by_bitrate() {
    let mut body = vec![0xff, 0xfb, 0x90, 0x00];
    body.resize(64, 0);
    let scan = audio_scan(&body, 16_000);
    assert_eq!(scan.channel_count, 2);
    // 16000 bytes at 128 kbit/s last one second.
    assert_eq!(scan.timing, Some((128_000, 128_000)));
    assert_eq!(audio_scan(&[0; 64], 16_000).timing, None);
}

#[test]
fn mp3_frames_give_rate_and_channels() {
    // MPEG-1 layer III, 128 kbit/s, 44.1 kHz, stereo.
    let info = parse_mp3_frame_header(&[0xff, 0xfb, 0x90, 0x00]).unwrap();
    assert_eq!(info.bitrate, 128_000);
    assert_eq!(info.channel_mode, 0);
    assert_eq!(info.sample_rate, 44100);
    assert_eq!(info.channel_count(), 2);
    let mono = parse_mp3_frame_header(&[0xff, 0xfb, 0x90, 0xc0]).unwrap();
    assert_eq!(mono.channel_count(), 1);
    assert!(parse_mp3_frame_header(&[0xff, 0xfb, 0xf0, 0x00]).is_none());
    assert_eq!(parse_first_mp3_frame(&[0, 0, 0xff, 0xfb, 0x90, 0x00]), Some(info));
}

/// TIFF data with one directory of 12-byte entries, little-endian.
fn tiff(entries: &[(u16, u16, u32, u32)], next: u32) -> Vec<u8> {
    let mut t = b"II\x2a\0\x08\0\0\0".to_vec();
    t.extend_from_slice(&(entries.len() as u16).to_le_bytes());
    for (tag, kind, count, value) in entries {
        t.extend_from_slice(&tag.to_le_bytes());
        t.extend_from_slice(&kind.to_le_bytes());
        t.extend_from_slice(&count.to_le_bytes());
        t.extend_from_slice(&value.to_le_bytes());
    }
    t.extend_from_slice(&next.to_le_bytes());
    t
}

#[test]
fn directories_are_read() {
    let t = tiff(&[(0x100, 4, 1, 640), (0x101, 4, 1, 480), (0x112, 3, 1, 6)], 0);
    assert_eq!(tiff_byte_order(&t), Some(true));
    assert_eq!(read_tiff_header(&t), Some((true, 8)));
    assert_eq!(tiff_ifd0_dimensions(&t, true), Some((640, 480)));
    assert_eq!(tiff_ifd0_orientation(&t, true), 6);
    assert_eq!(tiff_byte_order(b"XX\x2a\0"), None);
}

#[test]
fn the_thumbnail_of_a_camera_is_found() {
    let mut t = tiff(&[(0x112, 3, 1, 1)], 26);
    let at = t.len() as u32 + 2 + 24 + 4;
    t.extend_from_slice(&2u16.to_le_bytes());
    for (tag, value) in [(0x201u16, at), (0x202, 9)] {
        t.extend_from_slice(&tag.to_le_bytes());
        t.extend_from_slice(&4u16.to_le_bytes());
        t.extend_from_slice(&1u32.to_le_bytes());
        t.extend_from_slice(&value.to_le_bytes());
    }
    t.extend_from_slice(&[0; 4]);
    t.extend_from_slice(&[0xff, 0xd8, 1, 2, 3, 4, 5, 0xff, 0xd9]);
    let info = parse_tiff_exif_thumbnail(&t, 1000).unwrap();
    assert_eq!(info.thumb_file_offset, 1000 + at as u64);
    assert_eq!(info.thumb_len, 9);
    let mut j = vec![0xff, 0xd8, 0xff, 0xe1];
    j.extend_from_slice(&((t.len() + 8) as u16).to_be_bytes());
    j.extend_from_slice(b"Exif\0\0");
    j.extend_from_slice(&t);
    let info = find_jpeg_exif_shortcut(&j).unwrap();
    assert_eq!(info.thumb_file_offset, 12 + at as u64);
    assert!(find_jpeg_exif_shortcut(&jpeg(2, 2)).is_none());
}

#[test]
fn the_longest_embedded_jpeg_wins() {
    let mut t = tiff(&[(0x201, 4, 1, 100), (0x202, 4, 1, 50)], 0);
    t.resize(100, 0);
    t.extend_from_slice(&[0xff, 0xd8]);
    t.resize(150, 7);
    assert_eq!(find_tiff_embedded_jpeg_span(&t), Some((100, 50)));
}

#[test]
fn attempts_follow_kind_and_extension() {
    let raw = shortcut(Some(FileKind::Image), "nef", Some(10_000_000), 65536);
    assert!(raw.contains(&Attempt::RawPreview));
    let small = shortcut(Some(FileKind::Image), "png", Some(1000), 65536);
    assert!(small.contains(&Attempt::SmallImage));
    let big = shortcut(Some(FileKind::Image), "png", Some(1_000_000), 65536);
    assert!(!big.contains(&Attempt::SmallImage));
    assert!(shortcut(Some(FileKind::Audio), "mp3", None, 65536).contains(&Attempt::AudioCover));
    assert!(shortcut(Some(FileKind::Document), "docx", None, 65536).contains(&Attempt::ZipContainer));
    assert!(shortcut(Some(FileKind::Text), "txt", None, 65536).is_empty());
    assert!(Attempt::Exif.renderer().starts_with("shortcut/"));
}

#[test]
fn small_pictures_are_decoded_whole() {
    let r = render_small(&png(7, 3)).unwrap();
    assert_eq!((r.image.width, r.image.height), (7, 3));
    assert!(!r.is_partial);
    assert!(render_small(b"no").is_none());
    let p = render_preview(&jpeg(4, 4), Attempt::Exif, 400, 300).unwrap();
    assert_eq!(p.props.unwrap().width, 400);
    assert!(is_jpeg_start(&jpeg(1, 1)));
    assert!(!is_jpeg_start(&png(1, 1)));
}

#[test]
fn progressive_reads_are_bounded() {
    assert!(progressive_partial_read_bytes(None, None) > 0);
    assert!(plan_progressive((None, None), 1000).is_none());
    assert!(plan_progressive((Some(100), Some(100)), 9_999).is_none());
    assert_eq!(plan_progressive((Some(4000), Some(3000)), 100_000_000), Some((4000, 3000, 285_714)));
    assert_eq!(progressive_partial_read_bytes(Some(10), Some(10)), 10_240);
    let part = jpeg(8, 8);
    let closed = close_partial(part.clone()).unwrap();
    assert_eq!(closed[..part.len()], part[..]);
    assert_eq!(closed[part.len()..], [0xff, 0xd9]);
    assert_eq!(close_partial(vec![0; 15]), None);
    assert!(webp_dimensions(b"RIFF").is_none());
}

#[test]
fn an_exif_search_asks_for_the_header_first() {
    let mut search = ExifShortcut::new();
    let (offset, len) = search.wants().unwrap();
    assert_eq!(offset, 0);
    assert_eq!(len, 4096);
    search.on_read(None);
    assert!(search.wants().is_none());
    assert!(search.finish().is_none());
    let mut raw = RawShortcut::new();
    assert_eq!(raw.wants(), Some((0, 32768)));
    raw.on_read(Some(b"no tiff".to_vec()));
    assert!(raw.wants().is_none());
    assert!(raw.finish().is_none());
    let web = WebpShortcut::new(None);
    assert!(web.wants().is_none());
    let web = WebpShortcut::new(Some(200_000));
    assert_eq!(web.wants(), Some((200_000 - 131_072, 131_072)));
}

#[test]
fn a_camera_jpeg_gives_its_preview() {
    let preview = jpeg(16, 12);
    let mut t = tiff(&[(0x112, 3, 1, 1)], 26);
    let at = t.len() as u32 + 2 + 24 + 4;
    t.extend_from_slice(&2u16.to_le_bytes());
    for (tag, value) in [(0x201u16, at), (0x202, preview.len() as u32)] {
        t.extend_from_slice(&tag.to_le_bytes());
        t.extend_from_slice(&4u16.to_le_bytes());
        t.extend_from_slice(&1u32.to_le_bytes());
        t.extend_from_slice(&value.to_le_bytes());
    }
    t.extend_from_slice(&[0; 4]);
    t.extend_from_slice(&preview);
    let mut file = vec![0xff, 0xd8, 0xff, 0xe1];
    file.extend_from_slice(&((t.len() + 8) as u16).to_be_bytes());
    file.extend_from_slice(b"Exif\0\0");
    file.extend_from_slice(&t);
    file.extend_from_slice(&jpeg(640, 480)[2..]);
    let mut search = ExifShortcut::new();
    let mut reads = 0;
    while let Some((offset, len)) = search.wants() {
        let from = (offset as usize).min(file.len());
        let to = (from + len).min(file.len());
        search.on_read(Some(file[from..to].to_vec()));
        reads += 1;
        assert!(reads < 10);
    }
    let r = search.finish().unwrap();
    assert_eq!((r.image.width, r.image.height), (16, 12));
    let props = r.props.unwrap();
    assert_eq!((props.width, props.height), (640, 480));
}
