use x_desk::watcher::{
    classify_window_message, WatchEvent, WM_DISPLAYCHANGE, WM_WTSSESSION_CHANGE, WORKER_W_DESTROY_MESSAGE,
    WTS_SESSION_UNLOCK,
};

#[test]
fn display_change_maps_to_refresh() {
    assert_eq!(classify_window_message(WM_DISPLAYCHANGE, 0, 0), Some(WatchEvent::DisplayChanded));
}

#[test]
fn taskbar_created_maps_to_reset() {
    assert_eq!(classify_window_message(0xC123, 0, 0xC123), Some(WatchEvent::TaskbarCreated));
}

#[test]
fn session_unlock_maps_to_session_unlock() {
    assert_eq!(
        classify_window_message(WM_WTSSESSION_CHANGE, WTS_SESSION_UNLOCK as usize, 0),
        Some(WatchEvent::SessionUnlock)
    );
}

#[test]
fn wallpaper_reset_message_maps_to_reset() {
    assert_eq!(
        classify_window_message(WORKER_W_DESTROY_MESSAGE, 0, 0),
        Some(WatchEvent::WorkerWDestroied)
    );
}

#[test]
fn other_session_changes_and_messages_are_ignored() {
    assert_eq!(classify_window_message(WM_WTSSESSION_CHANGE, 7, 0), None);
    assert_eq!(classify_window_message(0x0001, 0, 0xC123), None);
    assert_eq!(classify_window_message(0, 0, 0), None);
}
