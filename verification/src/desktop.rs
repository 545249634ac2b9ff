//! Attaching a content window to the desktop: which window becomes its
//! parent, the window styles that make it a child of that window, and the
//! place and size it gets there.
use vstd::prelude::*;

use crate::occlusion::Rect;

verus! {

/// The window styles that a top-level frame has and a wallpaper child does
/// not: caption, sizing frame, system menu, minimize and maximize boxes,
/// and the pop-up style.
pub const FRAME_STYLES: u32 = 0x00c0_0000 | 0x0004_0000 | 0x0008_0000 | 0x0002_0000 | 0x0001_0000
    | 0x8000_0000;

/// The window styles of a wallpaper child: child, clip children, clip
/// siblings.
pub const CHILD_STYLES: u32 = 0x4000_0000 | 0x0200_0000 | 0x0400_0000;

/// The extended style of a tool window, which has no taskbar button.
pub const WS_EX_TOOLWINDOW: u32 = 0x0000_0080;

/// The extended style that forces a taskbar button.
pub const WS_EX_APPWINDOW: u32 = 0x0004_0000;

/// The style of a content window made a wallpaper child: the frame styles
/// cleared, the child styles set, every other bit kept.
pub open spec fn child_style_of(style: u32) -> u32 {
    (style & !FRAME_STYLES) | CHILD_STYLES
}

/// The extended style of a content window made a wallpaper child: a tool
/// window without a taskbar button, every other bit kept.
pub open spec fn child_ex_style_of(ex_style: u32) -> u32 {
    (ex_style | WS_EX_TOOLWINDOW) & !WS_EX_APPWINDOW
}

/// The style that makes a content window a wallpaper child.
pub fn child_window_style(style: u32) -> (res: u32)
    ensures
        res == child_style_of(style),
        res & 0x4000_0000 != 0,
        res & 0x8000_0000 == 0,
{
    let res = (style & !FRAME_STYLES) | CHILD_STYLES;
    assert(res & 0x4000_0000 != 0 && res & 0x8000_0000 == 0) by (bit_vector)
        requires
            res == (style & !(0x00c0_0000u32 | 0x0004_0000u32 | 0x0008_0000u32 | 0x0002_0000u32
                | 0x0001_0000u32 | 0x8000_0000u32)) | (0x4000_0000u32 | 0x0200_0000u32
                | 0x0400_0000u32),
    ;
    res
}

/// The extended style that makes a content window a wallpaper child.
pub fn child_window_ex_style(ex_style: u32) -> (res: u32)
    ensures
        res == child_ex_style_of(ex_style),
        res & WS_EX_TOOLWINDOW != 0,
        res & WS_EX_APPWINDOW == 0,
{
    let res = (ex_style | WS_EX_TOOLWINDOW) & !WS_EX_APPWINDOW;
    assert(res & 0x80 != 0 && res & 0x4_0000 == 0) by (bit_vector)
        requires
            res == (ex_style | 0x80u32) & !0x4_0000u32,
    ;
    res
}

/// The desktop windows that a wallpaper attaches to.
#[derive(Debug, Clone, Copy, PartialEq, Eq, Structural)]
pub struct DesktopWindows {
    /// The program manager window.
    pub progman: isize,
    /// Whether the desktop is raised (icons drawn above the wallpaper in
    /// the program manager itself).
    pub is_raised_desktop: bool,
    /// The worker window behind the desktop icons.
    pub worker_w: isize,
    /// The window that shows the desktop icons.
    pub shell_dll_def_view: isize,
}

impl DesktopWindows {
    /// The window that wallpapers are attached to: the program manager on a
    /// raised desktop, the worker window otherwise.
    pub fn parent_of_wallpaper(&self) -> (res: isize)
        ensures
            res == (if self.is_raised_desktop {
                self.progman
            } else {
                self.worker_w
            }),
    {
        if self.is_raised_desktop {
            self.progman
        } else {
            self.worker_w
        }
    }
}

/// Where an attached content window stands, in its parent's coordinates.
#[derive(Debug, Clone, Copy, PartialEq, Eq, Structural)]
pub struct AttachedContentWindow {
    pub x: i32,
    pub y: i32,
    pub width: i32,
    pub height: i32,
}

/// The place of a content window covering the monitor rectangle `rect`,
/// whose top left corner maps to `(x, y)` in the wallpaper parent.
pub fn attached_geometry(x: i32, y: i32, rect: Rect) -> (res: AttachedContentWindow)
    requires
        i32::MIN <= rect.right - rect.left <= i32::MAX,
        i32::MIN <= rect.bottom - rect.top <= i32::MAX,
    ensures
        res.x == x,
        res.y == y,
        res.width == rect.right - rect.left,
        res.height == rect.bottom - rect.top,
{
    AttachedContentWindow { x, y, width: rect.right - rect.left, height: rect.bottom - rect.top }
}


/// A top-level window seen while looking for the desktop icons: the
/// `SHELLDLL_DefView` child it has, if any, and the `WorkerW` window that
/// follows it, if any (0 standing for none).
#[derive(Debug, Clone, Copy, PartialEq, Eq, Structural)]
pub struct TopLevelWindow {
    pub def_view: Option<isize>,
    pub next_worker_w: Option<isize>,
}

/// The worker window and icon view found among the top-level windows `ws`,
/// in enumeration order: those of the last window that has the icon view
/// (the worker window after it, or 0), or `(0, 0)` when none has.
pub open spec fn worker_w_info_of(ws: Seq<TopLevelWindow>) -> (isize, isize)
    decreases ws.len(),
{
    if ws.len() == 0 {
        (0, 0)
    } else {
        match ws.last().def_view {
            Some(d) => (
                match ws.last().next_worker_w {
                    Some(w) => w,
                    None => 0,
                },
                d,
            ),
            None => worker_w_info_of(ws.drop_last()),
        }
    }
}

/// The worker window behind the icons and the icon view, as found among
/// the top-level windows `ws`.
pub fn worker_w_info(ws: &[TopLevelWindow]) -> (res: (isize, isize))
    ensures
        res == worker_w_info_of(ws@),
{
    let mut res: (isize, isize) = (0, 0);
    let mut i: usize = 0;
    while i < ws.len()
        invariant
            i <= ws@.len(),
            res == worker_w_info_of(ws@.take(i as int)),
        decreases ws@.len() - i,
    {
        let w = ws[i];
        proof {
            assert(ws@.take(i + 1).drop_last() =~= ws@.take(i as int));
            assert(ws@.take(i + 1).last() == w);
        }
        match w.def_view {
            Some(d) => {
                res = (
                    match w.next_worker_w {
                        Some(x) => x,
                        None => 0,
                    },
                    d,
                );
            },
            None => {},
        }
        i += 1;
    }
    assert(ws@.take(ws@.len() as int) =~= ws@);
    res
}

/// The window that hosts the desktop icons: the program manager when the
/// icon view is its child, otherwise the first of the worker windows
/// (given in order, each with whether the icon view is its child) that
/// has it, and the program manager when none has.
pub open spec fn desktop_worker_w_of(progman: isize, progman_has_def_view: bool, worker_ws: Seq<(isize, bool)>) -> isize
    decreases worker_ws.len(),
{
    if progman_has_def_view {
        progman
    } else if worker_ws.len() == 0 {
        progman
    } else if worker_ws[0].1 {
        worker_ws[0].0
    } else {
        desktop_worker_w_of(progman, false, worker_ws.skip(1))
    }
}

/// The window that hosts the desktop icons.
pub fn desktop_worker_w(progman: isize, progman_has_def_view: bool, worker_ws: &[(isize, bool)]) -> (res: isize)
    ensures
        res == desktop_worker_w_of(progman, progman_has_def_view, worker_ws@),
{
    if progman_has_def_view {
        return progman;
    }
    let mut i: usize = 0;
    assert(worker_ws@.skip(0) =~= worker_ws@);
    while i < worker_ws.len()
        invariant
            i <= worker_ws@.len(),
            !progman_has_def_view,
            desktop_worker_w_of(progman, false, worker_ws@) == desktop_worker_w_of(
                progman,
                false,
                worker_ws@.skip(i as int),
            ),
        decreases worker_ws@.len() - i,
    {
        let (w, has) = worker_ws[i];
        proof {
            assert(worker_ws@.skip(i as int)[0] == worker_ws@[i as int]);
            assert(worker_ws@.skip(i as int).skip(1) =~= worker_ws@.skip(i + 1));
        }
        if has {
            return w;
        }
        i += 1;
    }
    progman
}

/// The desktop windows: on a raised desktop the worker window is the
/// program manager's own `WorkerW` child when it has one.
pub fn desktop_windows(
    progman: isize,
    is_raised_desktop: bool,
    found: (isize, isize),
    progman_worker_w_child: Option<isize>,
) -> (res: DesktopWindows)
    ensures
        res.progman == progman,
        res.is_raised_desktop == is_raised_desktop,
        res.shell_dll_def_view == found.1,
        res.worker_w == (if is_raised_desktop && progman_worker_w_child is Some {
            progman_worker_w_child->0
        } else {
            found.0
        }),
{
    let worker_w = if is_raised_desktop {
        match progman_worker_w_child {
            Some(w) => w,
            None => found.0,
        }
    } else {
        found.0
    };
    DesktopWindows { progman, is_raised_desktop, worker_w, shell_dll_def_view: found.1 }
}

} // verus!
