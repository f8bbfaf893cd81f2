use thumbrella::ffs::build_string;
use thumbrella::tier3::scratch::{ArenaError, FileNames, ScratchArena};

#[test]
fn arena_output_path_unique() {
    let mut names = FileNames::new();
    let arena = ScratchArena::new(0);
    let a = arena.output_path(&mut names, "png");
    let b = arena.output_path(&mut names, "png");
    assert_ne!(a, b);
}

#[test]
fn arena_stage_bytes_and_cleanup() {
    let mut names = FileNames::new();
    let mut arena = ScratchArena::new(1024 * 1024);
    let name = arena.stage_bytes(&mut names, b"hello world", "test").unwrap();
    assert!(!name.is_empty());
    assert_eq!(arena.current_usage(), 11);
    arena.remove(11);
    assert_eq!(arena.current_usage(), 0);
}

#[test]
fn arena_limit_exceeded() {
    let mut names = FileNames::new();
    let mut arena = ScratchArena::new(5);
    let result = arena.stage_bytes(&mut names, b"too big", "test");
    assert!(result.is_err());
    match result.unwrap_err() {
        ArenaError::LimitExceeded { current: 0, needed: 7, max: 5 } => {}
        other => panic!("unexpected error: {}", other.message()),
    }
}

#[test]
fn an_arena_without_limit_takes_anything() {
    let mut names = FileNames::new();
    let mut arena = ScratchArena::new(0);
    assert!(arena.stage_bytes(&mut names, &[7u8; 9000], "big").is_ok());
    assert_eq!(arena.current_usage(), 9000);
    assert_eq!(arena.max_bytes(), 0);
}

#[test]
fn a_refused_stage_leaves_the_count_alone() {
    let mut names = FileNames::new();
    let mut arena = ScratchArena::new(10);
    assert!(arena.stage_bytes(&mut names, b"12345678", "a").is_ok());
    assert!(arena.check_room(2).is_ok());
    assert_eq!(
        arena.stage_bytes(&mut names, b"123", "b").unwrap_err(),
        ArenaError::LimitExceeded { current: 8, needed: 3, max: 10 }
    );
    assert_eq!(arena.current_usage(), 8);
    arena.remove(8);
    assert_eq!(arena.current_usage(), 0);
}

#[test]
fn names_stay_fresh_over_many_calls() {
    let mut names = FileNames::new();
    let arena = ScratchArena::new(0);
    let mut seen = std::collections::HashSet::new();
    for _ in 0..2000 {
        assert!(seen.insert(arena.output_path(&mut names, "png")));
        assert_ne!(names.state, 0);
    }
}

#[test]
fn arenas_share_their_names() {
    let mut names = FileNames::new();
    let a = ScratchArena::new(0).output_path(&mut names, "png");
    let b = ScratchArena::new(0).output_path(&mut names, "png");
    assert_eq!(a, "out_x5xh519l.png");
    assert_ne!(a, b);
    let url = ScratchArena::new(0).stage_url(&mut names, "https://e.com/a.blend?x=1");
    assert!(url.starts_with("a.blend_"));
}

#[test]
fn build_string_combines_version_and_source() {
    let s = build_string(Some("8.1.2"), "bundled-vcpkg");
    assert!(s.contains("bundled-vcpkg"), "expected 'bundled-vcpkg' in: {s}");
    assert!(s.starts_with(|c: char| c.is_ascii_digit()), "should start with version: {s}");
    assert_eq!(build_string(None, "system"), "unknown system");
}
