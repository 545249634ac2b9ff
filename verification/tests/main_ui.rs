use x_desk::config::{Config, MonitorConfig, WallpaperKind};
use x_desk::main_ui::{
    encode_file_url_spaces, extension_from_source, file_url_from_source, has_wallpaper_config,
    is_internet_video_url, monitor_layout_view_model_from_parts, path_to_file_url,
    preview_for_video_source, save_monitor_content_update, source_for_selected_local_file,
    ContentUpdateError, DisplayMonitorInfo, MonitorContentUpdateRequest, MonitorRectViewModel,
    SelectedFileError,
};
use x_desk::occlusion::Rect;

#[test]
fn html_file_source_is_rejected() {
    let error = source_for_selected_local_file("C:\\pages\\index.html").unwrap_err();

    assert!(error.to_string().contains("Unsupported selected file extension: .html"));
}

#[test]
fn video_file_source_uses_direct_path() {
    let source = source_for_selected_local_file("C:\\videos\\one clip.mp4").unwrap();

    assert_eq!(source.kind, WallpaperKind::Video);
    assert_eq!(source.source, "C:\\videos\\one clip.mp4");
    assert_eq!(source.preview_source, "C:\\videos\\one clip.mp4");
}

#[test]
fn all_supported_video_extensions_use_direct_path() {
    for extension in ["mp4", "webm", "mov", "m4v"] {
        let path = format!("C:\\videos\\sample.{extension}");
        let source = source_for_selected_local_file(&path).unwrap();

        assert_eq!(source.kind, WallpaperKind::Video);
        assert_eq!(source.source, path);
    }
}

#[test]
fn unsupported_extension_is_rejected() {
    let error = source_for_selected_local_file("C:\\files\\notes.txt").unwrap_err();

    assert!(error.to_string().contains("Unsupported selected file extension: .txt"));
}

#[test]
fn missing_extension_is_rejected() {
    let error = source_for_selected_local_file("C:\\files\\notes").unwrap_err();

    assert!(error.to_string().contains("Selected file has no supported extension"));
}

#[test]
fn path_to_file_url_normalizes_windows_paths_and_spaces() {
    assert_eq!(
        path_to_file_url("C:\\videos\\one clip.mp4"),
        "file:///C:/videos/one%20clip.mp4"
    );
}

#[test]
fn upper_case_video_extension_is_accepted_and_reported_lower_case() {
    assert!(source_for_selected_local_file("D:\\clips\\INTRO.MP4").is_ok());
    assert_eq!(
        source_for_selected_local_file("D:\\clips\\Doc.PDF").unwrap_err(),
        SelectedFileError::UnsupportedExtension("pdf".to_string())
    );
}

#[test]
fn dot_files_and_parent_references_have_no_extension() {
    assert_eq!(
        source_for_selected_local_file("C:\\videos\\.mp4").unwrap_err(),
        SelectedFileError::NoSupportedExtension
    );
    assert_eq!(
        source_for_selected_local_file("C:\\videos\\..").unwrap_err(),
        SelectedFileError::NoSupportedExtension
    );
    assert!(source_for_selected_local_file("C:\\videos\\clip.mp4\\.").is_ok());
    assert!(source_for_selected_local_file("clip.webm").is_ok());
    assert!(source_for_selected_local_file("C:/videos/clip.mov").is_ok());
}

#[test]
fn unc_paths_keep_their_server_as_url_host() {
    assert_eq!(path_to_file_url("\\\\server\\share\\a b.mp4"), "file://server/share/a%20b.mp4");
    assert_eq!(encode_file_url_spaces("a b  c"), "a%20b%20%20c");
}

#[test]
fn internet_video_urls_are_recognised_in_any_case() {
    assert!(is_internet_video_url("  HTTPS://example.com/v.mp4 "));
    assert!(is_internet_video_url("http://example.com"));
    assert!(!is_internet_video_url("ftp://example.com/v.mp4"));
    assert!(!is_internet_video_url("C:\\videos\\v.mp4"));
}

#[test]
fn file_url_from_source_keeps_urls() {
    assert_eq!(file_url_from_source("FILE:///C:/a.mp4"), "FILE:///C:/a.mp4");
    assert_eq!(file_url_from_source("https://x/v.mp4"), "https://x/v.mp4");
    assert_eq!(file_url_from_source("C:\\a b.mp4"), "file:///C:/a%20b.mp4");
}

#[test]
fn extension_from_source_ignores_query_and_fragment() {
    assert_eq!(extension_from_source(" https://x/v.MP4?t=1#f "), Some("mp4".to_string()));
    assert_eq!(extension_from_source("C:\\videos\\clip.webm#start"), Some("webm".to_string()));
    assert_eq!(extension_from_source("C:\\videos\\clip"), None);
}

#[test]
fn preview_is_given_for_videos_only() {
    let p = preview_for_video_source("C:\\v.mp4", None).unwrap();
    assert_eq!(p.url, "file:///C:/v.mp4");
    assert_eq!(preview_for_video_source("C:\\page.html", None), None);
    assert_eq!(
        preview_for_video_source("C:\\page.html", Some(" C:\\p.webm ")).unwrap().url,
        "file:///C:/p.webm"
    );
    assert_eq!(
        preview_for_video_source("x", Some("https://host/stream")).unwrap().url,
        "https://host/stream"
    );
}

#[test]
fn local_video_update_sets_trimmed_path() {
    let mut config = Config::default();
    let r = save_monitor_content_update(
        &mut config,
        1,
        MonitorContentUpdateRequest::LocalVideo { path: "  C:\\v\\a.mov ".to_string() },
    );
    assert!(r.is_ok());
    assert_eq!(config.monitors().len(), 2);
    assert_eq!(config.monitors()[1].kind(), WallpaperKind::Video);
    assert_eq!(config.monitors()[1].source(), "C:\\v\\a.mov");
    assert_eq!(config.preview_source_for_monitor(1), Some("C:\\v\\a.mov"));
}

#[test]
fn content_update_errors_leave_config_unchanged() {
    let mut config = Config::from_monitors(vec![MonitorConfig::new(
        WallpaperKind::Video,
        "a.mp4".to_string(),
        None,
    )]);
    let empty = save_monitor_content_update(
        &mut config,
        0,
        MonitorContentUpdateRequest::LocalVideo { path: "   ".to_string() },
    )
    .unwrap_err();
    assert_eq!(empty, ContentUpdateError::LocalVideoPathEmpty);
    assert_eq!(empty.to_string(), "Local video path is empty");

    let bad_url = save_monitor_content_update(
        &mut config,
        0,
        MonitorContentUpdateRequest::InternetVideo { url: "www.example.com".to_string() },
    )
    .unwrap_err();
    assert_eq!(bad_url, ContentUpdateError::InvalidInternetVideoUrl);
    assert_eq!(bad_url.to_string(), "Internet video URL must start with http:// or https://");

    let not_video = save_monitor_content_update(
        &mut config,
        0,
        MonitorContentUpdateRequest::LocalVideo { path: "C:\\a.gif".to_string() },
    )
    .unwrap_err();
    assert_eq!(not_video.to_string(), "Unsupported selected file extension: .gif");

    assert_eq!(config.monitors().len(), 1);
    assert_eq!(config.monitors()[0].source(), "a.mp4");
}

#[test]
fn internet_and_empty_updates() {
    let mut config = Config::default();
    save_monitor_content_update(
        &mut config,
        0,
        MonitorContentUpdateRequest::InternetVideo { url: " https://x/v.mp4 ".to_string() },
    )
    .unwrap();
    assert_eq!(config.content_for_monitor(0).unwrap().source, "https://x/v.mp4");
    assert!(has_wallpaper_config(&config));

    save_monitor_content_update(&mut config, 0, MonitorContentUpdateRequest::Nothing).unwrap();
    assert_eq!(config.content_for_monitor(0), None);
    assert!(!has_wallpaper_config(&config));
}

#[test]
fn layout_lists_each_monitor_with_its_content() {
    let config = Config::from_monitors(vec![
        MonitorConfig::new(WallpaperKind::Video, "C:\\a.mp4".to_string(), None),
        MonitorConfig::new(
            WallpaperKind::WebView,
            "<html></html>".to_string(),
            Some("C:\\b.mp4".to_string()),
        ),
    ]);
    let rect = MonitorRectViewModel::from_rect(Rect { left: -1920, top: 0, right: 0, bottom: 1080 });
    assert_eq!(rect.width, 1920);
    assert_eq!(rect.height, 1080);
    let monitors = vec![
        DisplayMonitorInfo { is_primary: true, rect },
        DisplayMonitorInfo { is_primary: false, rect },
        DisplayMonitorInfo { is_primary: false, rect },
    ];
    let layout = monitor_layout_view_model_from_parts(monitors, &config);

    assert_eq!(layout.monitors.len(), 3);
    assert_eq!(layout.monitors[0].index, 0);
    assert!(layout.monitors[0].is_primary);
    let first = layout.monitors[0].content.as_ref().unwrap();
    assert_eq!(first.kind, WallpaperKind::Video);
    assert_eq!(first.preview.as_ref().unwrap().url, "file:///C:/a.mp4");
    let second = layout.monitors[1].content.as_ref().unwrap();
    assert_eq!(second.kind, WallpaperKind::WebView);
    assert_eq!(second.preview, None);
    assert_eq!(layout.monitors[2].content, None);
    assert_eq!(layout.monitors[2].index, 2);
}

use x_desk::main_ui::{main_ui_reaction, MainUiReaction};
use x_desk::single_instance::SingleInstanceMessage;

#[test]
fn messages_from_other_instances() {
    assert_eq!(main_ui_reaction(SingleInstanceMessage::SecondInstanceStarted), MainUiReaction::ShowWindow);
    assert_eq!(main_ui_reaction(SingleInstanceMessage::ExitRequested), MainUiReaction::Exit);
}

#[test]
fn rejected_requests_are_answered_at_any_index() {
    let mut config = Config::default();
    let r = save_monitor_content_update(
        &mut config,
        usize::MAX,
        MonitorContentUpdateRequest::InternetVideo { url: "ftp://x".to_string() },
    );
    assert_eq!(r, Err(ContentUpdateError::InvalidInternetVideoUrl));
    let r = save_monitor_content_update(
        &mut config,
        usize::MAX,
        MonitorContentUpdateRequest::LocalVideo { path: "C:\\a.txt".to_string() },
    );
    assert!(r.is_err());
    assert_eq!(config.monitors().len(), 0);
}
