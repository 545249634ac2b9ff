//! The decisions of the main window: how it answers desktop events with
//! wallpaper refreshes, resets and timers.
//!
//! When Explorer restarts, the old WorkerW can be destroyed before the new
//! desktop exists, so a WorkerW destruction only schedules a delayed reset.
//! TaskbarCreated is the stronger signal: it cancels a pending delayed reset
//! and resets at once, so one rebuild never resets twice.
use vstd::prelude::*;

use crate::watcher::WatchEvent;

verus! {

/// What the reset scheduler asks its owner to do.
#[derive(Debug, Clone, Copy, PartialEq, Eq, Structural)]
pub enum ResetScheduleAction {
    Nothing,
    StartWorkerWResetTimer,
    CancelWorkerWResetTimerAndResetNow,
    ResetNow,
}

/// Coalesces the wallpaper resets that desktop rebuilds call for: at most one
/// delayed reset is pending at any time.
#[derive(Debug)]
pub struct WallpaperResetScheduler {
    worker_w_reset_pending: bool,
}

impl View for WallpaperResetScheduler {
    /// Whether a delayed reset is pending.
    type V = bool;

    closed spec fn view(&self) -> bool {
        self.worker_w_reset_pending
    }
}

/// The scheduler's answer to a WorkerW destruction, from the pending flag
/// `pending`: the new flag and the action.
pub open spec fn on_worker_w_destroyed(pending: bool) -> (bool, ResetScheduleAction) {
    if pending {
        (true, ResetScheduleAction::Nothing)
    } else {
        (true, ResetScheduleAction::StartWorkerWResetTimer)
    }
}

/// The scheduler's answer to TaskbarCreated.
pub open spec fn on_taskbar_created(pending: bool) -> (bool, ResetScheduleAction) {
    if pending {
        (false, ResetScheduleAction::CancelWorkerWResetTimerAndResetNow)
    } else {
        (false, ResetScheduleAction::ResetNow)
    }
}

/// The scheduler's answer to the delayed-reset timer.
pub open spec fn on_reset_timer_elapsed(pending: bool) -> (bool, ResetScheduleAction) {
    if pending {
        (false, ResetScheduleAction::CancelWorkerWResetTimerAndResetNow)
    } else {
        (false, ResetScheduleAction::Nothing)
    }
}

/// The action resets the wallpapers now.
pub open spec fn resets_now(a: ResetScheduleAction) -> bool {
    a == ResetScheduleAction::CancelWorkerWResetTimerAndResetNow || a == ResetScheduleAction::ResetNow
}

impl Default for WallpaperResetScheduler {
    /// A scheduler with no pending reset.
    fn default() -> (res: Self)
        ensures
            res@ == false,
    {
        WallpaperResetScheduler { worker_w_reset_pending: false }
    }
}

impl WallpaperResetScheduler {
    /// Whether a delayed reset is pending.
    pub fn is_reset_pending(&self) -> (res: bool)
        ensures
            res == self@,
    {
        self.worker_w_reset_pending
    }

    /// The WorkerW was destroyed: starts the delayed-reset timer unless a
    /// reset is already pending.
    pub fn worker_w_destroyed(&mut self) -> (res: ResetScheduleAction)
        ensures
            (final(self)@, res) == on_worker_w_destroyed(old(self)@),
    {
        if self.worker_w_reset_pending {
            ResetScheduleAction::Nothing
        } else {
            self.worker_w_reset_pending = true;
            ResetScheduleAction::StartWorkerWResetTimer
        }
    }

    /// The taskbar was created: resets now, cancelling a pending delayed
    /// reset first.
    pub fn taskbar_created(&mut self) -> (res: ResetScheduleAction)
        ensures
            (final(self)@, res) == on_taskbar_created(old(self)@),
    {
        if self.worker_w_reset_pending {
            self.worker_w_reset_pending = false;
            ResetScheduleAction::CancelWorkerWResetTimerAndResetNow
        } else {
            ResetScheduleAction::ResetNow
        }
    }

    /// The delayed-reset timer elapsed: resets now when a reset is pending.
    pub fn worker_w_reset_timer_elapsed(&mut self) -> (res: ResetScheduleAction)
        ensures
            (final(self)@, res) == on_reset_timer_elapsed(old(self)@),
    {
        if self.worker_w_reset_pending {
            self.worker_w_reset_pending = false;
            ResetScheduleAction::CancelWorkerWResetTimerAndResetNow
        } else {
            ResetScheduleAction::Nothing
        }
    }

    /// Drops the pending reset.
    pub fn clear_worker_w_reset(&mut self)
        ensures
            final(self)@ == false,
    {
        self.worker_w_reset_pending = false;
    }
}

/// Any number of WorkerW destructions in a row keep a single reset pending:
/// only the first of them starts the timer.
pub proof fn law_worker_w_destructions_coalesce(pending: bool)
    ensures
        on_worker_w_destroyed(on_worker_w_destroyed(pending).0).0 == true,
        on_worker_w_destroyed(on_worker_w_destroyed(pending).0).1 == ResetScheduleAction::Nothing,
        on_worker_w_destroyed(pending).1 == ResetScheduleAction::StartWorkerWResetTimer <==> !pending,
{
}

/// TaskbarCreated always resets at once and leaves no reset pending, so the
/// delayed-reset timer that fires afterwards does nothing.
pub proof fn law_taskbar_created_resets_and_cancels(pending: bool)
    ensures
        resets_now(on_taskbar_created(pending).1),
        on_taskbar_created(pending).0 == false,
        on_reset_timer_elapsed(on_taskbar_created(pending).0).1 == ResetScheduleAction::Nothing,
        (on_taskbar_created(pending).1 == ResetScheduleAction::CancelWorkerWResetTimerAndResetNow)
            == pending,
{
}

/// A WorkerW destruction leads to exactly one reset, whichever of the timer
/// and TaskbarCreated comes first: the first resets, the timer afterwards
/// does nothing.
pub proof fn law_one_reset_per_destruction(pending: bool)
    ensures
        ({
            let after_destroy = on_worker_w_destroyed(pending).0;
            let by_timer = on_reset_timer_elapsed(after_destroy);
            let by_taskbar = on_taskbar_created(after_destroy);
            &&& resets_now(by_timer.1)
            &&& on_reset_timer_elapsed(by_timer.0).1 == ResetScheduleAction::Nothing
            &&& resets_now(by_taskbar.1)
            &&& on_reset_timer_elapsed(by_taskbar.0).1 == ResetScheduleAction::Nothing
        }),
{
}

/// An event that reaches the main window.
#[derive(Debug, Clone, Copy, PartialEq, Eq, Structural)]
pub enum MainWindowEvent {
    /// The display configuration changed.
    DisplayChanged,
    /// The desktop's WorkerW window was destroyed.
    WorkerWDestroyed,
    /// The taskbar was created (Explorer started or restarted).
    TaskbarCreated,
    /// The session was unlocked; whether the desktop handles are still valid.
    SessionUnlocked { desktop_valid: bool },
    /// The delayed-reset timer fired.
    WorkerWResetTimerFired,
    /// The delayed-reset timer could not be started.
    WorkerWResetTimerNotStarted,
    /// A window moved, appeared or disappeared, so occlusion may have changed.
    OcclusionCheckRequested,
    /// The occlusion check timer fired.
    OcclusionCheckTimerFired,
    /// The occlusion check timer could not be started.
    OcclusionCheckTimerNotStarted,
}

/// Work that the main window asks its host to carry out, in order.
#[derive(Debug, Clone, Copy, PartialEq, Eq, Structural)]
pub enum MainWindowAction {
    /// Apply the configuration to the current docks and monitors.
    RefreshWallpapers,
    /// Drop the event watcher, rebuild desktop discovery and docks from the
    /// configuration, recreate the watcher and refresh occlusions.
    ResetWallpapers,
    /// Recompute which docks are occluded and pause or resume them.
    RefreshOcclusions,
    /// Start the delayed-reset timer.
    StartWorkerWResetTimer,
    /// Stop the delayed-reset timer.
    CancelWorkerWResetTimer,
    /// Recreate the tray icon.
    RecreateTrayIcon,
    /// Start the occlusion check timer.
    StartOcclusionCheckTimer,
    /// Stop the occlusion check timer.
    CancelOcclusionCheckTimer,
}

/// The main window's decision state: the reset scheduler and whether an
/// occlusion check is pending.
#[derive(Debug)]
pub struct MainWindowState {
    reset_scheduler: WallpaperResetScheduler,
    occlusion_check_pending: bool,
}

/// The mathematical value of a [`MainWindowState`].
pub struct MainWindowView {
    pub reset_pending: bool,
    pub occlusion_check_pending: bool,
}

impl View for MainWindowState {
    type V = MainWindowView;

    closed spec fn view(&self) -> MainWindowView {
        MainWindowView {
            reset_pending: self.reset_scheduler@,
            occlusion_check_pending: self.occlusion_check_pending,
        }
    }
}

/// The main window's answer to `event` in state `s`: the next state and the
/// actions, in order.
pub open spec fn main_window_step(s: MainWindowView, event: MainWindowEvent) -> (MainWindowView, Seq<MainWindowAction>) {
    match event {
        MainWindowEvent::DisplayChanged => (
            s,
            seq![MainWindowAction::RefreshWallpapers, MainWindowAction::RefreshOcclusions],
        ),
        MainWindowEvent::WorkerWDestroyed => {
            let (p, a) = on_worker_w_destroyed(s.reset_pending);
            (
                MainWindowView { reset_pending: p, ..s },
                if a == ResetScheduleAction::StartWorkerWResetTimer {
                    seq![MainWindowAction::StartWorkerWResetTimer]
                } else {
                    Seq::empty()
                },
            )
        },
        MainWindowEvent::TaskbarCreated => {
            let (p, a) = on_taskbar_created(s.reset_pending);
            let reset = seq![MainWindowAction::RecreateTrayIcon, MainWindowAction::ResetWallpapers];
            (
                MainWindowView { reset_pending: p, ..s },
                if a == ResetScheduleAction::CancelWorkerWResetTimerAndResetNow {
                    seq![MainWindowAction::CancelWorkerWResetTimer] + reset
                } else {
                    reset
                },
            )
        },
        MainWindowEvent::SessionUnlocked { desktop_valid } => (
            s,
            if desktop_valid {
                seq![MainWindowAction::RefreshWallpapers, MainWindowAction::RefreshOcclusions]
            } else {
                seq![MainWindowAction::ResetWallpapers]
            },
        ),
        MainWindowEvent::WorkerWResetTimerFired => {
            let (p, a) = on_reset_timer_elapsed(s.reset_pending);
            (
                MainWindowView { reset_pending: p, ..s },
                if a == ResetScheduleAction::CancelWorkerWResetTimerAndResetNow {
                    seq![MainWindowAction::CancelWorkerWResetTimer, MainWindowAction::ResetWallpapers]
                } else {
                    Seq::empty()
                },
            )
        },
        MainWindowEvent::WorkerWResetTimerNotStarted => (
            MainWindowView { reset_pending: false, ..s },
            seq![MainWindowAction::ResetWallpapers],
        ),
        MainWindowEvent::OcclusionCheckRequested => (
            MainWindowView { occlusion_check_pending: true, ..s },
            seq![MainWindowAction::StartOcclusionCheckTimer],
        ),
        MainWindowEvent::OcclusionCheckTimerFired => if s.occlusion_check_pending {
            (
                MainWindowView { occlusion_check_pending: false, ..s },
                seq![MainWindowAction::CancelOcclusionCheckTimer, MainWindowAction::RefreshOcclusions],
            )
        } else {
            (s, Seq::empty())
        },
        MainWindowEvent::OcclusionCheckTimerNotStarted => (
            MainWindowView { occlusion_check_pending: false, ..s },
            seq![MainWindowAction::RefreshOcclusions],
        ),
    }
}

/// The main window's answer to a desktop watch event.
pub open spec fn watch_event_to_main(event: WatchEvent, desktop_valid: bool) -> MainWindowEvent {
    match event {
        WatchEvent::DisplayChanded => MainWindowEvent::DisplayChanged,
        WatchEvent::WorkerWDestroied => MainWindowEvent::WorkerWDestroyed,
        WatchEvent::TaskbarCreated => MainWindowEvent::TaskbarCreated,
        WatchEvent::SessionUnlock => MainWindowEvent::SessionUnlocked { desktop_valid },
    }
}

impl MainWindowState {
    /// The state at start: no reset and no occlusion check pending.
    pub fn new() -> (res: Self)
        ensures
            res@ == (MainWindowView { reset_pending: false, occlusion_check_pending: false }),
    {
        MainWindowState { reset_scheduler: WallpaperResetScheduler::default(), occlusion_check_pending: false }
    }

    /// The actions with which the main window starts: the tray icon, the
    /// wallpapers and the occlusions.
    pub fn startup_actions() -> (res: Vec<MainWindowAction>)
        ensures
            res@ == seq![MainWindowAction::RecreateTrayIcon, MainWindowAction::RefreshWallpapers, MainWindowAction::RefreshOcclusions],
    {
        vec![MainWindowAction::RecreateTrayIcon, MainWindowAction::RefreshWallpapers, MainWindowAction::RefreshOcclusions]
    }

    /// The main window event that a desktop watch event becomes; a session
    /// unlock carries whether the desktop handles are still valid.
    pub fn event_for_watch(event: WatchEvent, desktop_valid: bool) -> (res: MainWindowEvent)
        ensures
            res == watch_event_to_main(event, desktop_valid),
    {
        match event {
            WatchEvent::DisplayChanded => MainWindowEvent::DisplayChanged,
            WatchEvent::WorkerWDestroied => MainWindowEvent::WorkerWDestroyed,
            WatchEvent::TaskbarCreated => MainWindowEvent::TaskbarCreated,
            WatchEvent::SessionUnlock => MainWindowEvent::SessionUnlocked { desktop_valid },
        }
    }

    /// Takes `event` and returns, in order, the actions that answer it.
    pub fn handle_event(&mut self, event: MainWindowEvent) -> (res: Vec<MainWindowAction>)
        ensures
            (final(self)@, res@) == main_window_step(old(self)@, event),
    {
        match event {
            MainWindowEvent::DisplayChanged => {
                vec![MainWindowAction::RefreshWallpapers, MainWindowAction::RefreshOcclusions]
            },
            MainWindowEvent::WorkerWDestroyed => {
                if self.reset_scheduler.worker_w_destroyed() == ResetScheduleAction::StartWorkerWResetTimer {
                    vec![MainWindowAction::StartWorkerWResetTimer]
                } else {
                    Vec::new()
                }
            },
            MainWindowEvent::TaskbarCreated => {
                let mut actions = Vec::new();
                if self.reset_scheduler.taskbar_created() == ResetScheduleAction::CancelWorkerWResetTimerAndResetNow {
                    actions.push(MainWindowAction::CancelWorkerWResetTimer);
                }
                actions.push(MainWindowAction::RecreateTrayIcon);
                actions.push(MainWindowAction::ResetWallpapers);
                actions
            },
            MainWindowEvent::SessionUnlocked { desktop_valid } => {
                if desktop_valid {
                    vec![MainWindowAction::RefreshWallpapers, MainWindowAction::RefreshOcclusions]
                } else {
                    vec![MainWindowAction::ResetWallpapers]
                }
            },
            MainWindowEvent::WorkerWResetTimerFired => {
                if self.reset_scheduler.worker_w_reset_timer_elapsed()
                    == ResetScheduleAction::CancelWorkerWResetTimerAndResetNow {
                    vec![MainWindowAction::CancelWorkerWResetTimer, MainWindowAction::ResetWallpapers]
                } else {
                    Vec::new()
                }
            },
            MainWindowEvent::WorkerWResetTimerNotStarted => {
                self.reset_scheduler.clear_worker_w_reset();
                vec![MainWindowAction::ResetWallpapers]
            },
            MainWindowEvent::OcclusionCheckRequested => {
                self.occlusion_check_pending = true;
                vec![MainWindowAction::StartOcclusionCheckTimer]
            },
            MainWindowEvent::OcclusionCheckTimerFired => {
                if !self.occlusion_check_pending {
                    Vec::new()
                } else {
                    self.occlusion_check_pending = false;
                    vec![MainWindowAction::CancelOcclusionCheckTimer, MainWindowAction::RefreshOcclusions]
                }
            },
            MainWindowEvent::OcclusionCheckTimerNotStarted => {
                self.occlusion_check_pending = false;
                vec![MainWindowAction::RefreshOcclusions]
            },
        }
    }
}

/// The number of wallpaper resets in a list of actions.
pub open spec fn reset_count(actions: Seq<MainWindowAction>) -> nat
    decreases actions.len(),
{
    if actions.len() == 0 {
        0
    } else {
        reset_count(actions.drop_last()) + if actions.last() == MainWindowAction::ResetWallpapers {
            1nat
        } else {
            0nat
        }
    }
}

/// An Explorer restart, seen as a WorkerW destruction and then TaskbarCreated
/// (with any number of further WorkerW destructions between them), resets the
/// wallpapers exactly once, and the delayed-reset timer that fires afterwards
/// resets nothing more.
pub proof fn law_explorer_restart_resets_once(s: MainWindowView, extra_destructions: nat)
    ensures
        ({
            let (s1, a1) = main_window_step(s, MainWindowEvent::WorkerWDestroyed);
            let s2 = repeat_destroyed(s1, extra_destructions);
            let (s3, a3) = main_window_step(s2, MainWindowEvent::TaskbarCreated);
            let (s4, a4) = main_window_step(s3, MainWindowEvent::WorkerWResetTimerFired);
            &&& reset_count(a1) == 0
            &&& s2.reset_pending
            &&& reset_count(a3) == 1
            &&& a3[0] == MainWindowAction::CancelWorkerWResetTimer
            &&& reset_count(a4) == 0
            &&& !s4.reset_pending
        }),
    decreases extra_destructions,
{
    let (s1, a1) = main_window_step(s, MainWindowEvent::WorkerWDestroyed);
    lemma_repeat_destroyed(s1, extra_destructions);
    let s2 = repeat_destroyed(s1, extra_destructions);
    let (s3, a3) = main_window_step(s2, MainWindowEvent::TaskbarCreated);
    assert(a3 =~= seq![MainWindowAction::CancelWorkerWResetTimer, MainWindowAction::RecreateTrayIcon, MainWindowAction::ResetWallpapers]);
    assert(a3.drop_last() =~= seq![MainWindowAction::CancelWorkerWResetTimer, MainWindowAction::RecreateTrayIcon]);
    assert(a3.drop_last().drop_last() =~= seq![MainWindowAction::CancelWorkerWResetTimer]);
    assert(a3.drop_last().drop_last().drop_last() =~= Seq::<MainWindowAction>::empty());
    assert(reset_count(a3.drop_last().drop_last().drop_last()) == 0);
    assert(reset_count(a3.drop_last().drop_last()) == 0);
    assert(reset_count(a3.drop_last()) == 0);
    assert(reset_count(a3) == 1);
    if s.reset_pending {
        assert(a1 =~= Seq::<MainWindowAction>::empty());
    } else {
        assert(a1 =~= seq![MainWindowAction::StartWorkerWResetTimer]);
        assert(a1.drop_last() =~= Seq::<MainWindowAction>::empty());
        assert(reset_count(a1.drop_last()) == 0);
    }
    assert(reset_count(a1) == 0);
    let (s4, a4) = main_window_step(s3, MainWindowEvent::WorkerWResetTimerFired);
    assert(a4 =~= Seq::<MainWindowAction>::empty());
    assert(reset_count(a4) == 0);
}

/// The state after `n` further WorkerW destructions.
pub open spec fn repeat_destroyed(s: MainWindowView, n: nat) -> MainWindowView
    decreases n,
{
    if n == 0 {
        s
    } else {
        repeat_destroyed(main_window_step(s, MainWindowEvent::WorkerWDestroyed).0, (n - 1) as nat)
    }
}

proof fn lemma_repeat_destroyed(s: MainWindowView, n: nat)
    requires
        s.reset_pending,
    ensures
        repeat_destroyed(s, n).reset_pending,
    decreases n,
{
    if n > 0 {
        lemma_repeat_destroyed(main_window_step(s, MainWindowEvent::WorkerWDestroyed).0, (n - 1) as nat);
    }
}

/// Occlusion checks are debounced: any number of requests in a row keep one
/// check pending, and the timer then refreshes occlusions exactly once.
pub proof fn law_occlusion_checks_debounce(s: MainWindowView)
    ensures
        ({
            let (s1, _a1) = main_window_step(s, MainWindowEvent::OcclusionCheckRequested);
            let (s2, _a2) = main_window_step(s1, MainWindowEvent::OcclusionCheckRequested);
            let (s3, a3) = main_window_step(s2, MainWindowEvent::OcclusionCheckTimerFired);
            let (_s4, a4) = main_window_step(s3, MainWindowEvent::OcclusionCheckTimerFired);
            &&& s2.occlusion_check_pending
            &&& a3 == seq![MainWindowAction::CancelOcclusionCheckTimer, MainWindowAction::RefreshOcclusions]
            &&& a4.len() == 0
        }),
{
}


/// A display change refreshes the wallpapers first and the occlusions after
/// them, and changes no pending reset or occlusion check; a session unlock
/// with a valid desktop is answered just the same.
pub proof fn law_display_change_refreshes_wallpapers_then_occlusions(s: MainWindowView)
    ensures
        main_window_step(s, MainWindowEvent::DisplayChanged).0 == s,
        main_window_step(s, MainWindowEvent::DisplayChanged).1.len() == 2,
        main_window_step(s, MainWindowEvent::DisplayChanged).1[0] == MainWindowAction::RefreshWallpapers,
        main_window_step(s, MainWindowEvent::DisplayChanged).1[1] == MainWindowAction::RefreshOcclusions,
        main_window_step(s, MainWindowEvent::SessionUnlocked { desktop_valid: true }) == main_window_step(
            s,
            MainWindowEvent::DisplayChanged,
        ),
{
}

} // verus!
