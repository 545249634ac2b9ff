use x_desk::config::{Config, MonitorConfig, WallpaperContentSpec, WallpaperKind};
use x_desk::content::ContentCommand;
use x_desk::docks::{
    monitor_contents, truncate_with_ellipsis, ContentPlan, Dock, DockList, DockListError, MAX_DOCKS,
};
use x_desk::occlusion::{DockRegion, Rect};

fn content(source: &str) -> WallpaperContentSpec {
    WallpaperContentSpec { kind: WallpaperKind::Video, source: source.to_string() }
}

#[test]
fn occlusion_changes_send_one_command_each() {
    let mut dock = Dock::new();
    assert_eq!(dock.set_occluded(true), None);
    assert_eq!(dock.content_started(content("a.mp4"), 77), Some(ContentCommand::Pause));
    assert_eq!(dock.set_occluded(true), None);
    assert_eq!(dock.set_occluded(false), Some(ContentCommand::Resume));
    assert_eq!(dock.set_occluded(false), None);
    assert_eq!(dock.set_occluded(true), Some(ContentCommand::Pause));
    assert!(dock.is_occluded());
}

#[test]
fn running_process_with_same_content_is_reused() {
    let mut dock = Dock::new();
    assert_eq!(dock.plan_content(&content("a.mp4"), true), ContentPlan::Start);
    assert_eq!(dock.content_started(content("a.mp4"), 5), None);
    assert_eq!(dock.plan_content(&content("a.mp4"), true), ContentPlan::Reuse(5));
    assert_eq!(dock.plan_content(&content("a.mp4"), false), ContentPlan::Start);
    assert_eq!(dock.plan_content(&content("b.mp4"), true), ContentPlan::Start);
    dock.content_stopped();
    assert_eq!(dock.content_hwnd(), None);
    assert_eq!(dock.plan_content(&content("a.mp4"), true), ContentPlan::Start);
}

#[test]
fn dock_list_slots() {
    let mut list = DockList::new();
    let r = Rect { left: 0, top: 0, right: 10, bottom: 10 };
    assert_eq!(list.get_or_create(MAX_DOCKS, r), Err(DockListError::TooLargeIndex(MAX_DOCKS)));
    assert_eq!(list.remove(20), Err(DockListError::TooLargeIndex(20)));
    assert_eq!(list.get_or_create(2, r), Ok(true));
    assert_eq!(list.get_or_create(2, r), Ok(false));
    assert!(list.regions().is_empty());
    assert_eq!(list.content_started_at(2, content("a.mp4"), 42), None);
    assert_eq!(list.regions(), vec![DockRegion { hwnd: 42, rect: r }]);
    assert_eq!(list.find_by_content_hwnd(42), Some(2));
    assert_eq!(list.find_by_content_hwnd(43), None);

    let commands = list.apply_occlusions(&[(42, true), (99, true), (42, true)]);
    assert_eq!(commands, vec![(2, ContentCommand::Pause)]);
    assert!(list.dock(2).unwrap().is_occluded());

    assert_eq!(list.remove(2), Ok(()));
    assert!(list.dock(2).is_none());
    assert!(list.regions().is_empty());
}

#[test]
fn remove_from_keeps_lower_slots() {
    let mut list = DockList::new();
    let r = Rect { left: 0, top: 0, right: 1, bottom: 1 };
    for i in 0..4 {
        list.get_or_create(i, r).unwrap();
        list.content_started_at(i, content("x.mp4"), i as isize + 100);
    }
    list.remove_from(2);
    assert!(list.dock(1).is_some());
    assert!(list.dock(2).is_none());
    assert_eq!(list.regions().len(), 2);
    list.clear();
    assert!(list.regions().is_empty());
}

#[test]
fn monitor_contents_follow_config() {
    let config = Config::from_monitors(vec![
        MonitorConfig::new(WallpaperKind::Video, " a.mp4 ".to_string(), None),
        MonitorConfig::new(WallpaperKind::WebView, "".to_string(), None),
    ]);
    let contents = monitor_contents(&config, 3);
    assert_eq!(contents, vec![Some(content("a.mp4")), None, None]);
}

#[test]
fn long_sources_are_cut_for_logs() {
    assert_eq!(truncate_with_ellipsis("abcdef", 6), "abcdef");
    assert_eq!(truncate_with_ellipsis("abcdef", 3), "abc ...");
    assert_eq!(truncate_with_ellipsis("ééééé", 2), "éé ...");
}

#[test]
fn refresh_keeps_exactly_the_docks_of_monitors_with_content() {
    let mut list = DockList::new();
    let r = |x: i32| Rect { left: x, top: 0, right: x + 10, bottom: 10 };
    assert_eq!(list.refresh(&[true, false, true], &[r(0), r(10), r(20)]), vec![0, 2]);
    list.content_started_at(0, content("a.mp4"), 100);
    list.content_started_at(2, content("b.mp4"), 102);
    assert_eq!(list.regions().len(), 2);

    // The same monitors again: the docks and their processes stay.
    assert_eq!(list.refresh(&[true, false, true], &[r(0), r(10), r(20)]), vec![0, 2]);
    assert_eq!(list.dock(0).unwrap().content_hwnd(), Some(100));
    assert_eq!(list.dock(2).unwrap().content_hwnd(), Some(102));

    // The third monitor went away and the first lost its content.
    assert_eq!(list.refresh(&[false, true], &[r(0), r(10)]), vec![1]);
    assert!(list.dock(0).is_none());
    assert!(list.dock(1).unwrap().content_hwnd().is_none());
    assert!(list.dock(2).is_none());
}

#[test]
fn monitors_beyond_the_dock_limit_get_no_dock() {
    let mut list = DockList::new();
    let has = vec![true; MAX_DOCKS + 2];
    let rects = vec![Rect { left: 0, top: 0, right: 1, bottom: 1 }; MAX_DOCKS + 2];
    let filled = list.refresh(&has, &rects);
    assert_eq!(filled, (0..MAX_DOCKS).collect::<Vec<usize>>());
}
