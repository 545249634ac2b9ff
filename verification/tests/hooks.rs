use x_desk::hooks::{should_register_hook, HookContext, HookRegistry, EVENT_OBJECT_DESTROY};

#[test]
fn destroyed_target_notifies_owner() {
    let mut registry = HookRegistry::new();
    registry.register(HookContext { hook: 1, owner: 10, target: 100, msg: 0x8002 });
    registry.register(HookContext { hook: 2, owner: 20, target: 200, msg: 0x8003 });

    assert_eq!(registry.notification_for(1, EVENT_OBJECT_DESTROY, 100), Some((10, 0x8002)));
    assert_eq!(registry.notification_for(2, EVENT_OBJECT_DESTROY, 200), Some((20, 0x8003)));
    assert_eq!(registry.notification_for(1, EVENT_OBJECT_DESTROY, 200), None);
    assert_eq!(registry.notification_for(1, 0x8000, 100), None);
}

#[test]
fn unregistered_hook_is_silent() {
    let mut registry = HookRegistry::new();
    registry.register(HookContext { hook: 1, owner: 10, target: 100, msg: 5 });
    registry.register(HookContext { hook: 2, owner: 20, target: 200, msg: 6 });
    registry.unregister(1);

    assert_eq!(registry.notification_for(1, EVENT_OBJECT_DESTROY, 100), None);
    assert_eq!(registry.notification_for(2, EVENT_OBJECT_DESTROY, 200), Some((20, 6)));
}

#[test]
fn hooks_are_installed_only_for_known_windows() {
    assert!(should_register_hook(true, 12, true));
    assert!(!should_register_hook(false, 12, true));
    assert!(!should_register_hook(true, 0, true));
    assert!(!should_register_hook(true, 12, false));
}
