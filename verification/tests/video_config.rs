use x_desk::video_config::{Config, MonitorConfig};

#[test]
fn monitor_index_maps_to_monitor_url() {
    let config = Config::from_monitors(vec![
        MonitorConfig::new("C:\\videos\\one.mp4".to_string()),
        MonitorConfig::new("C:\\videos\\two.mp4".to_string()),
    ]);

    assert_eq!(config.video_url_for_monitor(1), Some("C:\\videos\\two.mp4"));
}

#[test]
fn empty_monitor_url_is_disabled() {
    let config = Config::from_monitors(vec![MonitorConfig::new("   ".to_string())]);

    assert_eq!(config.video_url_for_monitor(0), None);
}

#[test]
fn out_of_range_monitor_url_is_disabled() {
    let config = Config::from_monitors(vec![MonitorConfig::new("C:\\videos\\one.mp4".to_string())]);

    assert_eq!(config.video_url_for_monitor(1), None);
}
