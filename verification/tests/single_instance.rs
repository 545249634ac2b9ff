use x_desk::single_instance::{
    acquire_action, core_obj_name, exit_requested_event_name, should_retry_notify, wait_step,
    AcquireAction, SingleInstanceMessage, SingleInstanceNames, NOTIFY_RETRY_ATTEMPTS,
};

fn utf16_nul(s: &str) -> Vec<u16> {
    s.encode_utf16().chain([0]).collect()
}

#[test]
fn object_names_are_session_local_utf16() {
    assert_eq!(core_obj_name("x-desk", "-exit-requested"), utf16_nul("Local\\x-desk-exit-requested"));
    assert_eq!(core_obj_name("桌面😀", ""), utf16_nul("Local\\桌面😀"));
    let names = SingleInstanceNames::for_instance("app");
    assert_eq!(names.mutex, utf16_nul("Local\\app"));
    assert_eq!(names.second_instance_started_event, utf16_nul("Local\\app-second-instance-started"));
    assert_eq!(names.exit_requested_event, utf16_nul("Local\\app-exit-requested"));
    assert_eq!(exit_requested_event_name("app"), names.exit_requested_event);
}

#[test]
fn starting_instance_decisions() {
    assert_eq!(acquire_action(true), AcquireAction::NotifyRunningInstance);
    assert_eq!(acquire_action(false), AcquireAction::BecomeFirstInstance);
}

#[test]
fn waiting_thread_steps() {
    let s = wait_step(false, 0);
    assert_eq!(s.message, Some(SingleInstanceMessage::SecondInstanceStarted));
    assert!(s.keep_waiting);
    let s = wait_step(false, 1);
    assert_eq!(s.message, Some(SingleInstanceMessage::ExitRequested));
    assert!(!s.keep_waiting);
    let s = wait_step(false, 0xFFFF_FFFF);
    assert_eq!(s.message, None);
    assert!(!s.keep_waiting);
    let s = wait_step(true, 0);
    assert_eq!(s.message, None);
    assert!(!s.keep_waiting);
}

#[test]
fn notification_is_retried_twenty_times() {
    assert_eq!(NOTIFY_RETRY_ATTEMPTS, 20);
    assert!(should_retry_notify(0));
    assert!(should_retry_notify(19));
    assert!(!should_retry_notify(20));
}

#[test]
fn instance_objects_have_distinct_names() {
    let names = SingleInstanceNames::for_instance("x-desk-main-ui");
    assert_ne!(names.mutex, names.second_instance_started_event);
    assert_ne!(names.mutex, names.exit_requested_event);
    assert_ne!(names.second_instance_started_event, names.exit_requested_event);
}
