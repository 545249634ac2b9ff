use x_desk::content::ContentCommand;
use x_desk::webview::{
    asset_url, assign_virtual_hosts, classify_webview_source, file_url_to_windows_path, find_file_urls,
    is_inline_html, path_to_file_url, replace_spans, virtual_host, webview_message_for,
    webview_window_action, WebViewSourceError, WebViewSourceKind, WebViewWindowAction,
};

#[test]
fn inline_html_is_recognised_after_whitespace() {
    assert!(is_inline_html("  \n<!DOCTYPE html><html></html>"));
    assert!(is_inline_html("<!doctype html>"));
    assert!(is_inline_html("<html><body></body></html>"));
    assert!(!is_inline_html("<HTML>"));
    assert!(!is_inline_html("C:\\pages\\index.html"));
}

#[test]
fn sources_are_classified() {
    assert_eq!(classify_webview_source("   "), Err(WebViewSourceError::Empty));
    assert_eq!(
        classify_webview_source(" <html></html> "),
        Ok(WebViewSourceKind::InlineHtml("<html></html>".to_string()))
    );
    assert_eq!(
        classify_webview_source("data:text/html,hi"),
        Ok(WebViewSourceKind::Url("data:text/html,hi".to_string()))
    );
    assert_eq!(
        classify_webview_source("https://example.com"),
        Ok(WebViewSourceKind::Url("https://example.com".to_string()))
    );
    assert_eq!(
        classify_webview_source(" C:\\pages\\index.html "),
        Ok(WebViewSourceKind::LocalPath("C:\\pages\\index.html".to_string()))
    );
}

#[test]
fn navigation_urls_keep_spaces() {
    assert_eq!(path_to_file_url("C:\\pages\\my page.html"), "file:///C:/pages/my page.html");
    assert_eq!(path_to_file_url("\\\\server\\share\\x.html"), "file://server/share/x.html");
}

#[test]
fn file_urls_are_found_leftmost_and_longest() {
    let html = r#"<video src="file:///C:/videos/a%20b.mp4"></video><img src='file:///D:/x.png'>"#;
    let spans = find_file_urls(html);
    let chars: Vec<char> = html.chars().collect();
    let texts: Vec<String> = spans.iter().map(|(a, b)| chars[*a..*b].iter().collect()).collect();
    assert_eq!(texts, vec!["file:///C:/videos/a%20b.mp4".to_string(), "file:///D:/x.png'".to_string()]);
}

#[test]
fn a_quote_right_after_the_scheme_is_no_file_url() {
    assert!(find_file_urls(r#"<a href="file:///">x</a>"#).is_empty());
    assert!(find_file_urls("no urls here").is_empty());
    assert_eq!(find_file_urls("file:///a b"), vec![(0, 9)]);
}

#[test]
fn file_urls_become_windows_paths() {
    assert_eq!(
        file_url_to_windows_path("file:///C:/videos/a%20b.mp4"),
        Some("C:\\videos\\a b.mp4".to_string())
    );
    assert_eq!(file_url_to_windows_path("https://x/y"), None);
}

#[test]
fn virtual_hosts_are_numbered_by_first_appearance() {
    assert_eq!(virtual_host(12), "x-desk-assets-12.local");
    let folders = vec![
        "C:\\a".to_string(),
        "C:\\b".to_string(),
        "C:\\a".to_string(),
        "C:\\c".to_string(),
    ];
    let (host_of, mappings) = assign_virtual_hosts(&folders);
    assert_eq!(host_of, vec![0, 1, 0, 2]);
    assert_eq!(mappings.len(), 3);
    assert_eq!(mappings[0].host, "x-desk-assets-1.local");
    assert_eq!(mappings[0].folder, "C:\\a");
    assert_eq!(mappings[2].host, "x-desk-assets-3.local");
    assert_eq!(mappings[2].folder, "C:\\c");
}

#[test]
fn spans_are_replaced_in_order() {
    let html = "<img src=\"file:///C:/a/x.png\">";
    let spans = find_file_urls(html);
    let url = asset_url("x-desk-assets-1.local", "x.png");
    assert_eq!(url, "https://x-desk-assets-1.local/x.png");
    let out = replace_spans(html, &spans, &[url]).unwrap();
    assert_eq!(out, "<img src=\"https://x-desk-assets-1.local/x.png\">");
}

#[test]
fn replacing_each_span_by_itself_gives_the_text_back() {
    let html = "a file:///x b file:///y c";
    let spans = find_file_urls(html);
    let chars: Vec<char> = html.chars().collect();
    let same: Vec<String> = spans.iter().map(|(a, b)| chars[*a..*b].iter().collect()).collect();
    assert_eq!(replace_spans(html, &spans, &same).unwrap(), html);
}

#[test]
fn bad_spans_are_refused() {
    assert_eq!(replace_spans("abc", &[(2, 1)], &["x".to_string()]), None);
    assert_eq!(replace_spans("abc", &[(0, 4)], &["x".to_string()]), None);
    assert_eq!(replace_spans("abc", &[(1, 2), (0, 1)], &["x".to_string(), "y".to_string()]), None);
    assert_eq!(replace_spans("abc", &[(0, 1)], &[]), None);
}

#[test]
fn commands_reach_the_window_as_messages() {
    for (command, action) in [
        (ContentCommand::Pause, WebViewWindowAction::PauseVideos),
        (ContentCommand::Resume, WebViewWindowAction::ResumeVideos),
        (ContentCommand::Stop, WebViewWindowAction::Quit),
    ] {
        assert_eq!(webview_window_action(webview_message_for(command)), Some(action));
    }
    assert_eq!(webview_window_action(0x0005), Some(WebViewWindowAction::Resize));
    assert_eq!(webview_window_action(0x0002), Some(WebViewWindowAction::Quit));
    assert_eq!(webview_window_action(0x0010), None);
}

use x_desk::webview::rewrite_with_virtual_hosts;

#[test]
fn inline_html_is_rewritten_to_virtual_hosts() {
    let html = "<img src=\"file:///C:/a/x.png\"><img src=\"file:///C:/b/y.png\"><img src=\"file:///C:/a/z.png\">";
    let spans = find_file_urls(html);
    let folders = vec!["C:\\a".to_string(), "C:\\b".to_string(), "C:\\a".to_string()];
    let names = vec!["x.png".to_string(), "y.png".to_string(), "z.png".to_string()];
    let (out, mappings) = rewrite_with_virtual_hosts(html, &spans, &folders, &names).unwrap();
    assert_eq!(
        out,
        "<img src=\"https://x-desk-assets-1.local/x.png\"><img src=\"https://x-desk-assets-2.local/y.png\"><img src=\"https://x-desk-assets-1.local/z.png\">"
    );
    assert_eq!(mappings.len(), 2);
    assert_eq!(mappings[1].host, "x-desk-assets-2.local");
    assert_eq!(mappings[1].folder, "C:\\b");
    assert!(rewrite_with_virtual_hosts(html, &spans, &folders[..2], &names[..2]).is_none());
    assert!(rewrite_with_virtual_hosts(html, &spans, &folders, &names[..2]).is_none());
}
