use atem::host::{file_url_path, reveal_command, url_scheme};

#[test]
fn scheme_is_what_stands_before_the_mark() {
    assert_eq!(url_scheme("file:///home/u/a.mp4"), "file");
    assert_eq!(url_scheme("https://example.org/a://b"), "https");
    assert_eq!(url_scheme("no scheme here"), "no scheme here");
    assert_eq!(url_scheme("://x"), "");
    assert_eq!(url_scheme(""), "");
}

#[test]
fn file_url_names_a_path() {
    assert_eq!(file_url_path("file:///home/u/a.mp4"), Some("/home/u/a.mp4".to_string()));
    assert_eq!(file_url_path("file://C:/a.mp4"), Some("C:/a.mp4".to_string()));
    assert_eq!(file_url_path("file://a/file://b"), Some("a/b".to_string()));
    assert_eq!(file_url_path("file://"), Some("".to_string()));
}

#[test]
fn other_urls_name_no_path() {
    assert_eq!(file_url_path("https://example.org/a.mp4"), None);
    assert_eq!(file_url_path("asset://localhost/file://a"), None);
    assert_eq!(file_url_path("file:/a"), None);
    assert_eq!(file_url_path("FILE:///a"), None);
    assert_eq!(file_url_path(""), None);
}

#[test]
fn file_manager_command_depends_on_the_operating_system() {
    assert_eq!(
        reveal_command("windows", "C:\\v\\a.mp4"),
        Some(vec!["explorer".to_string(), "/select,".to_string(), "C:\\v\\a.mp4".to_string()])
    );
    assert_eq!(
        reveal_command("macos", "/v/a.mp4"),
        Some(vec!["open".to_string(), "-R".to_string(), "/v/a.mp4".to_string()])
    );
    assert_eq!(reveal_command("linux", "/v/a.mp4"), None);
    assert_eq!(reveal_command("", "/v/a.mp4"), None);
}
