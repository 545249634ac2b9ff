use x_desk::theme::{
    background_color, dark_mode_attribute, hyperlink_text_color, is_build_or_later, theme_from_registry,
    tray_action, SystemTheme, TrayAction, DARK_FRAME_MIN_BUILD,
};

fn units(s: &str) -> Vec<u16> {
    let mut v: Vec<u16> = s.encode_utf16().collect();
    v.resize(32, 0);
    v
}

#[test]
fn theme_follows_registry_value() {
    assert_eq!(theme_from_registry(true, 0), SystemTheme::Dark);
    assert_eq!(theme_from_registry(true, 1), SystemTheme::Light);
    assert_eq!(theme_from_registry(false, 0), SystemTheme::Light);
    assert_eq!(background_color(SystemTheme::Light), 0x00ff_ffff);
    assert_eq!(background_color(SystemTheme::Dark), 0x0020_2020);
    assert_eq!(hyperlink_text_color(SystemTheme::Light), 0x00cc_6600);
    assert_eq!(hyperlink_text_color(SystemTheme::Dark), 0x00ff_b56b);
    assert_eq!(dark_mode_attribute(SystemTheme::Dark), 1);
    assert_eq!(dark_mode_attribute(SystemTheme::Light), 0);
}

#[test]
fn build_numbers_are_compared() {
    assert!(is_build_or_later(&units("22631"), DARK_FRAME_MIN_BUILD));
    assert!(is_build_or_later(&units("17763"), DARK_FRAME_MIN_BUILD));
    assert!(!is_build_or_later(&units("17134"), DARK_FRAME_MIN_BUILD));
    assert!(is_build_or_later(&units("+17763"), DARK_FRAME_MIN_BUILD));
    assert!(!is_build_or_later(&units(""), 0));
    assert!(!is_build_or_later(&units("17763a"), 0));
    assert!(!is_build_or_later(&units("99999999999"), 0));
    assert!(is_build_or_later(&[0x31, 0x32, 0, 0x41], 12));
}

#[test]
fn tray_clicks() {
    assert_eq!(tray_action(0x0203), Some(TrayAction::ShowMainWindow));
    assert_eq!(tray_action(0x0001_0205), Some(TrayAction::ShowContextMenu));
    assert_eq!(tray_action(0x007b), Some(TrayAction::ShowContextMenu));
    assert_eq!(tray_action(0x0200), None);
}
