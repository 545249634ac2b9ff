use x_desk::main_window::{ResetScheduleAction, WallpaperResetScheduler};

#[test]
fn worker_w_destroy_starts_delayed_reset() {
    let mut scheduler = WallpaperResetScheduler::default();

    assert_eq!(scheduler.worker_w_destroyed(), ResetScheduleAction::StartWorkerWResetTimer);
}

#[test]
fn taskbar_created_cancels_pending_worker_w_reset_and_resets_now() {
    let mut scheduler = WallpaperResetScheduler::default();
    scheduler.worker_w_destroyed();

    assert_eq!(
        scheduler.taskbar_created(),
        ResetScheduleAction::CancelWorkerWResetTimerAndResetNow
    );
    assert_eq!(scheduler.worker_w_reset_timer_elapsed(), ResetScheduleAction::Nothing);
}

#[test]
fn worker_w_reset_timer_elapsed_resets_once() {
    let mut scheduler = WallpaperResetScheduler::default();
    scheduler.worker_w_destroyed();

    assert_eq!(
        scheduler.worker_w_reset_timer_elapsed(),
        ResetScheduleAction::CancelWorkerWResetTimerAndResetNow
    );
    assert_eq!(scheduler.worker_w_reset_timer_elapsed(), ResetScheduleAction::Nothing);
}

#[test]
fn multiple_worker_w_destroy_events_keep_one_pending_reset() {
    let mut scheduler = WallpaperResetScheduler::default();

    assert_eq!(scheduler.worker_w_destroyed(), ResetScheduleAction::StartWorkerWResetTimer);
    assert_eq!(scheduler.worker_w_destroyed(), ResetScheduleAction::Nothing);
}

#[test]
fn taskbar_created_without_pending_reset_resets_now() {
    let mut scheduler = WallpaperResetScheduler::default();

    assert_eq!(scheduler.taskbar_created(), ResetScheduleAction::ResetNow);
    assert!(!scheduler.is_reset_pending());
}

#[test]
fn cleared_reset_is_no_longer_pending() {
    let mut scheduler = WallpaperResetScheduler::default();
    scheduler.worker_w_destroyed();
    assert!(scheduler.is_reset_pending());
    scheduler.clear_worker_w_reset();

    assert!(!scheduler.is_reset_pending());
    assert_eq!(scheduler.worker_w_reset_timer_elapsed(), ResetScheduleAction::Nothing);
}

use x_desk::main_window::{MainWindowAction, MainWindowEvent, MainWindowState};
use x_desk::watcher::WatchEvent;

#[test]
fn explorer_restart_resets_once() {
    let mut state = MainWindowState::new();
    assert_eq!(
        state.handle_event(MainWindowEvent::WorkerWDestroyed),
        vec![MainWindowAction::StartWorkerWResetTimer]
    );
    assert_eq!(state.handle_event(MainWindowEvent::WorkerWDestroyed), vec![]);
    assert_eq!(
        state.handle_event(MainWindowEvent::TaskbarCreated),
        vec![
            MainWindowAction::CancelWorkerWResetTimer,
            MainWindowAction::RecreateTrayIcon,
            MainWindowAction::ResetWallpapers
        ]
    );
    assert_eq!(state.handle_event(MainWindowEvent::WorkerWResetTimerFired), vec![]);
}

#[test]
fn occlusion_checks_are_debounced() {
    let mut state = MainWindowState::new();
    assert_eq!(
        state.handle_event(MainWindowEvent::OcclusionCheckRequested),
        vec![MainWindowAction::StartOcclusionCheckTimer]
    );
    assert_eq!(
        state.handle_event(MainWindowEvent::OcclusionCheckTimerFired),
        vec![MainWindowAction::CancelOcclusionCheckTimer, MainWindowAction::RefreshOcclusions]
    );
    assert_eq!(state.handle_event(MainWindowEvent::OcclusionCheckTimerFired), vec![]);
    assert_eq!(
        state.handle_event(MainWindowEvent::OcclusionCheckTimerNotStarted),
        vec![MainWindowAction::RefreshOcclusions]
    );
}

#[test]
fn session_unlock_depends_on_desktop() {
    let mut state = MainWindowState::new();
    let valid = MainWindowState::event_for_watch(WatchEvent::SessionUnlock, true);
    assert_eq!(
        state.handle_event(valid),
        vec![MainWindowAction::RefreshWallpapers, MainWindowAction::RefreshOcclusions]
    );
    let invalid = MainWindowState::event_for_watch(WatchEvent::SessionUnlock, false);
    assert_eq!(state.handle_event(invalid), vec![MainWindowAction::ResetWallpapers]);
    assert_eq!(
        MainWindowState::startup_actions(),
        vec![
            MainWindowAction::RecreateTrayIcon,
            MainWindowAction::RefreshWallpapers,
            MainWindowAction::RefreshOcclusions
        ]
    );
}

#[test]
fn failed_reset_timer_resets_at_once() {
    let mut state = MainWindowState::new();
    state.handle_event(MainWindowEvent::WorkerWDestroyed);
    assert_eq!(
        state.handle_event(MainWindowEvent::WorkerWResetTimerNotStarted),
        vec![MainWindowAction::ResetWallpapers]
    );
    assert_eq!(
        state.handle_event(MainWindowEvent::WorkerWDestroyed),
        vec![MainWindowAction::StartWorkerWResetTimer]
    );
}
