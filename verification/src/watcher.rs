//! Desktop watch events: which window messages mean that the desktop needs a
//! refresh or a reset.
use vstd::prelude::*;

verus! {

/// The first message number that applications may define for themselves.
pub const WM_APP: u32 = 0x8000;
/// Sent to every top-level window when the display resolution changes.
pub const WM_DISPLAYCHANGE: u32 = 0x007e;
/// Sent to windows registered for session notifications.
pub const WM_WTSSESSION_CHANGE: u32 = 0x02b1;
/// The `WM_WTSSESSION_CHANGE` code of a session unlock.
pub const WTS_SESSION_UNLOCK: u32 = 0x8;
/// The message that the tray icon sends to the main window.
pub const TRAY_ICON_MESSAGE: u32 = 0x8001;
/// The message posted to the main window when the watched WorkerW is destroyed.
pub const WORKER_W_DESTROY_MESSAGE: u32 = 0x8002;

/// A desktop event that the main window answers.
#[derive(Debug, Clone, Copy, PartialEq, Eq, Structural)]
pub enum WatchEvent {
    DisplayChanded,
    WorkerWDestroied,
    TaskbarCreated,
    SessionUnlock,
}

/// The desktop event that a window message stands for, if any.
pub open spec fn spec_classify(message: u32, wparam: usize, taskbar_created_message: u32) -> Option<WatchEvent> {
    if message == WM_DISPLAYCHANGE {
        Some(WatchEvent::DisplayChanded)
    } else if taskbar_created_message != 0 && message == taskbar_created_message {
        Some(WatchEvent::TaskbarCreated)
    } else if message == WM_WTSSESSION_CHANGE && (wparam as u32) == WTS_SESSION_UNLOCK {
        Some(WatchEvent::SessionUnlock)
    } else if message == WORKER_W_DESTROY_MESSAGE {
        Some(WatchEvent::WorkerWDestroied)
    } else {
        None
    }
}

/// The desktop event that the window message `message` with parameter
/// `wparam` stands for. `taskbar_created_message` is the registered
/// `TaskbarCreated` message, or 0 when it could not be registered.
pub fn classify_window_message(message: u32, wparam: usize, taskbar_created_message: u32) -> (res: Option<WatchEvent>)
    ensures
        res == spec_classify(message, wparam, taskbar_created_message),
{
    if message == WM_DISPLAYCHANGE {
        return Some(WatchEvent::DisplayChanded);
    }
    if taskbar_created_message != 0 && message == taskbar_created_message {
        return Some(WatchEvent::TaskbarCreated);
    }
    if message == WM_WTSSESSION_CHANGE && wparam as u32 == WTS_SESSION_UNLOCK {
        return Some(WatchEvent::SessionUnlock);
    }
    if message == WORKER_W_DESTROY_MESSAGE {
        return Some(WatchEvent::WorkerWDestroied);
    }
    None
}

} // verus!
