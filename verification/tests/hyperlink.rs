use x_desk::hyperlink::{
    autosize_bounds, hyperlink_action, logical_font_height, Anchor, HorizontalAnchor, HyperLinkAction,
    HyperLinkFont, VerticalAnchor,
};
use x_desk::occlusion::Rect;

#[test]
fn font_height_follows_dpi() {
    let font = HyperLinkFont::new("Segoe UI".to_string(), 9);
    assert_eq!(font.name(), "Segoe UI");
    assert_eq!(font.point_size(), 9);
    assert_eq!(font.height_for_dpi(96), -12);
    assert_eq!(font.height_for_dpi(0), -12);
    assert_eq!(font.height_for_dpi(144), -18);
    assert_eq!(logical_font_height(0, 96), -1);
    assert_eq!(logical_font_height(-5, 72), -1);
    assert_eq!(logical_font_height(10, 100), -13);
}

#[test]
fn bounds_are_anchored() {
    let text = Rect { left: 0, top: 0, right: 81, bottom: 20 };
    let r = autosize_bounds(text, Anchor::new(HorizontalAnchor::Center(200), VerticalAnchor::Bottom(300)));
    assert_eq!(r, Rect { left: 160, top: 280, right: 241, bottom: 300 });
    let r = autosize_bounds(text, Anchor::new(HorizontalAnchor::Right(100), VerticalAnchor::Top(5)));
    assert_eq!(r, Rect { left: 19, top: 5, right: 100, bottom: 25 });
    let r = autosize_bounds(text, Anchor::new(HorizontalAnchor::Left(7), VerticalAnchor::Center(50)));
    assert_eq!(r, Rect { left: 7, top: 40, right: 88, bottom: 60 });
}

#[test]
fn empty_text_still_gets_one_pixel() {
    let text = Rect { left: 0, top: 0, right: 0, bottom: 0 };
    let r = autosize_bounds(text, Anchor::new(HorizontalAnchor::Left(3), VerticalAnchor::Top(4)));
    assert_eq!(r, Rect { left: 3, top: 4, right: 4, bottom: 5 });
}

#[test]
fn label_messages() {
    assert_eq!(hyperlink_action(0x000f), Some(HyperLinkAction::Paint));
    assert_eq!(hyperlink_action(0x0014), Some(HyperLinkAction::SkipBackground));
    assert_eq!(hyperlink_action(0x001a), Some(HyperLinkAction::Redraw));
    assert_eq!(hyperlink_action(0x0020), Some(HyperLinkAction::SetHandCursor));
    assert_eq!(hyperlink_action(0x0202), Some(HyperLinkAction::Click));
    assert_eq!(hyperlink_action(0x0201), None);
}
