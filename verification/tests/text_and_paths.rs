use x_desk::text::{is_blank, trim_str};
use x_desk::win_path::path_extension;

#[test]
fn trimming_uses_unicode_whitespace() {
    assert_eq!(trim_str("\u{3000} a b \u{a0}\n"), "a b");
    assert!(is_blank(" \t\r\n"));
    assert!(!is_blank(" x "));
}

#[test]
fn windows_path_extensions() {
    assert_eq!(path_extension("C:\\a\\b.tar.gz"), Some("gz".to_string()));
    assert_eq!(path_extension("C:\\a.d\\b"), None);
    assert_eq!(path_extension("C:/a/b."), Some("".to_string()));
    assert_eq!(path_extension("\\\\server\\share"), None);
    assert_eq!(path_extension("\\\\server\\share\\x.mp4"), Some("mp4".to_string()));
    assert_eq!(path_extension("C:x.mp4"), Some("mp4".to_string()));
    assert_eq!(path_extension("a\\b\\..\\"), None);
    assert_eq!(path_extension(".hidden"), None);
}
