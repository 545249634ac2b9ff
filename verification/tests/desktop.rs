use x_desk::desktop::{attached_geometry, child_window_ex_style, child_window_style, DesktopWindows};
use x_desk::occlusion::Rect;

#[test]
fn content_windows_become_children() {
    let overlapped = 0x00CF_0000u32 | 0x1000_0000;
    assert_eq!(child_window_style(overlapped), 0x1000_0000 | 0x4000_0000 | 0x0200_0000 | 0x0400_0000);
    assert_eq!(child_window_style(0x8000_0000), 0x4600_0000);
    assert_eq!(child_window_ex_style(0x0004_0100), 0x0000_0180);
}

#[test]
fn wallpaper_parent_depends_on_raised_desktop() {
    let mut d = DesktopWindows { progman: 1, is_raised_desktop: false, worker_w: 2, shell_dll_def_view: 3 };
    assert_eq!(d.parent_of_wallpaper(), 2);
    d.is_raised_desktop = true;
    assert_eq!(d.parent_of_wallpaper(), 1);
}

#[test]
fn attached_geometry_has_monitor_size() {
    let g = attached_geometry(5, 6, Rect { left: -1280, top: 100, right: 0, bottom: 820 });
    assert_eq!((g.x, g.y, g.width, g.height), (5, 6, 1280, 720));
}

use x_desk::desktop::{desktop_windows, desktop_worker_w, worker_w_info, TopLevelWindow};

#[test]
fn icon_host_is_found() {
    assert_eq!(desktop_worker_w(10, true, &[(20, true)]), 10);
    assert_eq!(desktop_worker_w(10, false, &[(20, false), (21, true), (22, true)]), 21);
    assert_eq!(desktop_worker_w(10, false, &[(20, false)]), 10);
    assert_eq!(desktop_worker_w(10, false, &[]), 10);
}

#[test]
fn last_window_with_icon_view_wins() {
    let ws = [
        TopLevelWindow { def_view: Some(5), next_worker_w: Some(6) },
        TopLevelWindow { def_view: None, next_worker_w: Some(7) },
        TopLevelWindow { def_view: Some(8), next_worker_w: None },
    ];
    assert_eq!(worker_w_info(&ws), (0, 8));
    assert_eq!(worker_w_info(&ws[..2]), (6, 5));
    assert_eq!(worker_w_info(&[]), (0, 0));
}

#[test]
fn raised_desktop_uses_progman_worker() {
    let d = desktop_windows(1, true, (2, 3), Some(4));
    assert_eq!((d.progman, d.worker_w, d.shell_dll_def_view), (1, 4, 3));
    assert_eq!(d.parent_of_wallpaper(), 1);
    let d = desktop_windows(1, false, (2, 3), Some(4));
    assert_eq!(d.worker_w, 2);
    assert_eq!(d.parent_of_wallpaper(), 2);
    assert_eq!(desktop_windows(1, true, (2, 3), None).worker_w, 2);
}
