use thumbrella::after::AfterResponse;
use thumbrella::bytes::{bytes_at, capped_sum, copy_range, part, read_u16, read_u32, tag4_at};
use thumbrella::digest::{base64url_of, sha256_of};
use thumbrella::lines::{first_line_or, is_less, lines, words};
use thumbrella::number::{decimal_of, parse_number};
use thumbrella::text::{
    contains, ends_with, join, split, split_once, starts_with, text_after_last, text_before,
    to_ascii_lower, trim, trim_end_char,
};
use thumbrella::text_map::TextMap;

#[test]
fn numbers_are_read_in_either_byte_order() {
    let buf = [0x12, 0x34, 0x56, 0x78, 0x9a];
    assert_eq!(read_u16(&buf, 0, true), Some(0x3412));
    assert_eq!(read_u16(&buf, 0, false), Some(0x1234));
    assert_eq!(read_u32(&buf, 1, true), Some(0x9a785634));
    assert_eq!(read_u32(&buf, 1, false), Some(0x3456789a));
    assert_eq!(read_u16(&buf, 4, true), None);
    assert_eq!(read_u32(&buf, 2, true), None);
    assert_eq!(read_u32(&buf, usize::MAX, true), None);
}

#[test]
fn byte_tags_must_lie_inside() {
    let buf = b"xxExifyy";
    assert!(bytes_at(buf, 2, b"Exif"));
    assert!(!bytes_at(buf, 5, b"Exif"));
    assert!(tag4_at(buf, 2, b'E', b'x', b'i', b'f'));
    assert!(!tag4_at(buf, 6, b'y', b'y', 0, 0));
    assert_eq!(copy_range(buf, 2, 4), b"Ex".to_vec());
    assert_eq!(part(buf, 6, 8), b"yy");
    assert_eq!(capped_sum(3, 4, 10), 7);
    assert_eq!(capped_sum(3, usize::MAX - 1, usize::MAX), usize::MAX);
}

#[test]
fn a_number_reads_back_from_its_digits() {
    for n in [0, 7, 10, 4096, u64::MAX] {
        assert_eq!(decimal_of(n), format!("{n}"));
        assert_eq!(parse_number(&decimal_of(n), u64::MAX), Some(n));
    }
    assert_eq!(parse_number("", 100), None);
    assert_eq!(parse_number("12x", 100), None);
    assert_eq!(parse_number("-1", 100), None);
    assert_eq!(parse_number("101", 100), None);
    assert_eq!(parse_number("100", 100), Some(100));
    assert_eq!(parse_number("18446744073709551616", u64::MAX), None);
}

#[test]
fn text_is_cut_and_joined() {
    assert_eq!(to_ascii_lower("\u{c9}ABC.JPG"), "\u{c9}abc.jpg");
    assert_eq!(trim(" \t a b \n"), "a b");
    assert_eq!(trim_end_char("a///", '/'), "a");
    assert_eq!(text_before("a?b?c", '?'), "a");
    assert_eq!(text_before("abc", '?'), "abc");
    assert_eq!(text_after_last("a.b.c", '.'), "c");
    assert!(starts_with("https://x", "https"));
    assert!(ends_with("a.png", ".png"));
    assert!(contains("a://b", "://"));
    assert!(!contains("a:/b", "://"));
    assert_eq!(split("a,,b", ','), vec!["a", "", "b"]);
    assert_eq!(split("", ','), vec![""]);
    assert_eq!(split_once("k=v=w", '='), Some(("k".to_string(), "v=w".to_string())));
    assert_eq!(split_once("kv", '='), None);
    assert_eq!(join(&split("a,b,c", ','), " + "), "a + b + c");
}

#[test]
fn lines_and_words_match_the_standard_library() {
    for s in ["", "\n", "a", "a\n", "a\r\nb", "a\n\nb\r", "  x y\tz\n w"] {
        assert_eq!(lines(s), s.lines().collect::<Vec<_>>(), "{s:?}");
        assert_eq!(words(s), s.split_whitespace().collect::<Vec<_>>(), "{s:?}");
    }
    assert_eq!(first_line_or("v1\nv2", "none"), "v1");
    assert_eq!(first_line_or("", "none"), "none");
}

#[test]
fn the_order_of_texts_is_that_of_strings() {
    for a in ["", "a", "ab", "b", "\u{e9}", "z"] {
        for b in ["", "a", "ab", "b", "\u{e9}", "z"] {
            assert_eq!(is_less(a, b), a < b, "{a:?} {b:?}");
        }
    }
}

#[test]
fn merging_prefers_the_newcomer() {
    let mut a = TextMap::new();
    a.insert("w".to_string(), "1".to_string());
    a.insert("h".to_string(), "2".to_string());
    let mut b = TextMap::new();
    b.insert("h".to_string(), "3".to_string());
    b.insert("bpp".to_string(), "24".to_string());
    a.merge(&b);
    assert_eq!(a.get("w"), Some("1"));
    assert_eq!(a.get("h"), Some("3"));
    assert_eq!(a.get("bpp"), Some("24"));
    assert_eq!(a.get("none"), None);
    a.insert("w".to_string(), "9".to_string());
    assert_eq!(a.copy().get("w"), Some("9"));
    assert_eq!(a.pairs.len(), 3);
}

#[test]
fn tasks_come_out_in_order_and_once() {
    let mut after = AfterResponse::new();
    assert!(after.is_empty());
    after.push(3);
    after.push(1);
    assert_eq!(after.len(), 2);
    assert_eq!(after.drain(), vec![3, 1]);
    assert!(after.is_empty());
    assert_eq!(after.drain(), Vec::<i32>::new());
}

#[test]
fn base64_vectors_without_padding() {
    assert_eq!(base64url_of(b""), "");
    assert_eq!(base64url_of(b"f"), "Zg");
    assert_eq!(base64url_of(b"fo"), "Zm8");
    assert_eq!(base64url_of(b"foo"), "Zm9v");
    assert_eq!(base64url_of(b"foob"), "Zm9vYg");
    assert_eq!(base64url_of(&[0xfb, 0xff, 0xfe]), "-__-");
}

#[test]
fn sha256_of_abc() {
    let hex: String = sha256_of(b"abc").iter().map(|b| format!("{b:02x}")).collect();
    assert_eq!(hex, "ba7816bf8f01cfea414140de5dae2223b00361a396177a9cb410ff61f20015ad");
}
