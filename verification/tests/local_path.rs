use thumbrella::local_path::{
    path_for_file_url, path_from_file_url, windows_path_for_file_url, windows_path_from_file_url,
};

#[test]
fn absolute_paths_become_a_file_url() {
    let url_path = path_for_file_url("/data/a.png").unwrap();
    assert_eq!(url_path, "/data/a.png");
    assert_eq!(format!("file://{url_path}"), "file:///data/a.png");
}

#[test]
fn relative_paths_have_no_file_url() {
    for raw in ["data/a.png", "./a.png", "", ".", "C:a.png"] {
        assert_eq!(path_for_file_url(raw), None, "{raw:?} should be rejected");
    }
}

#[test]
fn a_drive_letter_is_only_meaningful_on_windows() {
    assert_eq!(path_for_file_url("C:/Users/pete/a.png"), None);
}

#[test]
fn a_drive_shaped_url_keeps_its_root_slash_on_posix() {
    assert_eq!(path_from_file_url("file:///C:/a.png"), Some("/C:/a.png"));
    assert_eq!(path_from_file_url("file:///data/a.png"), Some("/data/a.png"));
}

#[test]
fn only_file_urls_have_a_path() {
    assert_eq!(path_from_file_url("https://example.com/a.png"), None);
}

#[test]
fn drive_paths_gain_a_root_slash_and_forward_slashes() {
    assert_eq!(windows_path_for_file_url("C:\\Users\\a.png").unwrap(), "/C:/Users/a.png");
    assert_eq!(windows_path_for_file_url("d:/b.png").unwrap(), "/d:/b.png");
    assert_eq!(windows_path_for_file_url("C:a.png"), None);
    assert_eq!(windows_path_for_file_url("/data/a.png"), None);
}

#[test]
fn drive_urls_lose_the_root_slash() {
    assert_eq!(windows_path_from_file_url("file:///C:/a.png"), Some("C:/a.png"));
    assert_eq!(windows_path_from_file_url("file:///data/a.png"), Some("/data/a.png"));
    assert_eq!(windows_path_from_file_url("https://example.com/a.png"), None);
}

#[test]
fn a_file_url_gives_its_path_back() {
    for raw in ["/", "/a b/c.png", "/\u{e9}t\u{e9}.jpg"] {
        let url = format!("file://{}", path_for_file_url(raw).unwrap());
        assert_eq!(path_from_file_url(&url), Some(raw));
    }
}
