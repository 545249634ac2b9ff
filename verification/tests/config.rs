use x_desk::config::{Config, MonitorConfig, WallpaperContentSpec, WallpaperKind};

fn video(source: &str) -> MonitorConfig {
    MonitorConfig::new(WallpaperKind::Video, source.to_string(), None)
}

#[test]
fn monitor_index_maps_to_content() {
    let config = Config::from_monitors(vec![video("C:\\videos\\one.mp4"), video("C:\\videos\\two.mp4")]);

    assert_eq!(
        config.content_for_monitor(1),
        Some(WallpaperContentSpec {
            kind: WallpaperKind::Video,
            source: "C:\\videos\\two.mp4".to_string(),
        })
    );
}

#[test]
fn empty_monitor_source_is_disabled() {
    let config = Config::from_monitors(vec![video("   ")]);

    assert_eq!(config.content_for_monitor(0), None);
}

#[test]
fn out_of_range_monitor_content_is_disabled() {
    let config = Config::from_monitors(vec![video("C:\\videos\\one.mp4")]);

    assert_eq!(config.content_for_monitor(1), None);
}

#[test]
fn set_webview_monitor_source_pads_missing_entries() {
    let mut config = Config::default();

    config.set_webview_monitor_source(
        2,
        "<html></html>".to_string(),
        Some("C:\\videos\\three.mp4".to_string()),
    );

    assert_eq!(config.content_for_monitor(0), None);
    assert_eq!(config.content_for_monitor(1), None);
    assert_eq!(
        config.content_for_monitor(2),
        Some(WallpaperContentSpec {
            kind: WallpaperKind::WebView,
            source: "<html></html>".to_string(),
        })
    );
    assert_eq!(config.preview_source_for_monitor(2), Some("C:\\videos\\three.mp4"));
}

#[test]
fn set_webview_monitor_source_discards_empty_preview_source() {
    let mut config = Config::default();

    config.set_webview_monitor_source(0, "C:\\pages\\index.html".to_string(), Some("   ".to_string()));

    assert_eq!(config.preview_source_for_monitor(0), None);
}

#[test]
fn clear_monitor_source_preserves_index_as_disabled_webview_entry() {
    let mut config = Config::from_monitors(vec![MonitorConfig::new(
        WallpaperKind::WebView,
        "C:\\pages\\index.html".to_string(),
        Some("C:\\pages\\index.html".to_string()),
    )]);

    config.clear_monitor_source(0);

    assert_eq!(config.content_for_monitor(0), None);
    assert_eq!(config.preview_source_for_monitor(0), None);
    assert_eq!(config.monitors().len(), 1);
    assert_eq!(config.monitors()[0].kind(), WallpaperKind::WebView);
    assert_eq!(config.monitors()[0].source(), "");
}

#[test]
fn clear_monitor_source_preserves_entries_after_cleared_index() {
    let mut config = Config::from_monitors(vec![
        MonitorConfig::new(
            WallpaperKind::WebView,
            "C:\\pages\\one.html".to_string(),
            Some("C:\\pages\\one.html".to_string()),
        ),
        MonitorConfig::new(
            WallpaperKind::WebView,
            "C:\\pages\\two.html".to_string(),
            Some("C:\\pages\\two.html".to_string()),
        ),
    ]);

    config.clear_monitor_source(0);

    assert_eq!(
        config.content_for_monitor(1),
        Some(WallpaperContentSpec {
            kind: WallpaperKind::WebView,
            source: "C:\\pages\\two.html".to_string(),
        })
    );
    assert_eq!(config.preview_source_for_monitor(1), Some("C:\\pages\\two.html"));
    assert_eq!(config.monitors().len(), 2);
}

#[test]
fn content_source_is_trimmed() {
    let config = Config::from_monitors(vec![video("  C:\\videos\\one.mp4 \t")]);

    assert_eq!(
        config.content_for_monitor(0),
        Some(WallpaperContentSpec {
            kind: WallpaperKind::Video,
            source: "C:\\videos\\one.mp4".to_string(),
        })
    );
}

#[test]
fn preview_source_is_trimmed() {
    let config = Config::from_monitors(vec![MonitorConfig::new(
        WallpaperKind::Video,
        "a.mp4".to_string(),
        Some("  b.mp4  ".to_string()),
    )]);

    assert_eq!(config.preview_source_for_monitor(0), Some("b.mp4"));
    assert_eq!(config.preview_source_for_monitor(1), None);
}

#[test]
fn read_after_write_of_video_source() {
    let mut config = Config::default();
    config.set_video_monitor_source(1, " C:\\v.mp4 ".to_string(), Some("C:\\p.mp4".to_string()));

    assert_eq!(config.monitors().len(), 2);
    assert_eq!(config.content_for_monitor(0), None);
    assert_eq!(
        config.content_for_monitor(1),
        Some(WallpaperContentSpec {
            kind: WallpaperKind::Video,
            source: "C:\\v.mp4".to_string(),
        })
    );
    assert_eq!(config.monitors()[1].source(), " C:\\v.mp4 ");
    assert_eq!(config.preview_source_for_monitor(1), Some("C:\\p.mp4"));
}

#[test]
fn writing_one_monitor_keeps_the_others() {
    let mut config = Config::from_monitors(vec![video("a.mp4"), video("b.mp4"), video("c.mp4")]);
    config.set_webview_monitor_source(1, "<html></html>".to_string(), None);

    assert_eq!(config.monitors().len(), 3);
    assert_eq!(config.content_for_monitor(0).unwrap().source, "a.mp4");
    assert_eq!(config.content_for_monitor(2).unwrap().source, "c.mp4");
    assert_eq!(config.content_for_monitor(1).unwrap().kind, WallpaperKind::WebView);
    assert_eq!(config.monitors()[1].stored_preview_source(), None);
}

#[test]
fn clearing_beyond_the_end_pads_with_disabled_entries() {
    let mut config = Config::from_monitors(vec![video("a.mp4")]);
    config.clear_monitor_source(3);

    assert_eq!(config.monitors().len(), 4);
    for index in 1..4 {
        assert_eq!(config.monitors()[index].kind(), WallpaperKind::WebView);
        assert_eq!(config.monitors()[index].source(), "");
        assert_eq!(config.content_for_monitor(index), None);
    }
    assert_eq!(config.content_for_monitor(0).unwrap().source, "a.mp4");
}
