//! Event dispatch, key-press matching, keybind installation, and
//! registration classification.

use minwm::{
    bind_keys, Command, ConfigureCommand, ConfigureRequest, Event, FallibleMutAction, Geometry,
    Keybind, KeybindFunction, MappingKind, MutAction, RegisterError, RegisterReply,
    WindowManager, WmError, MOD_4, MOD_SHIFT,
};

fn geometry() -> Geometry {
    Geometry { x: 0, y: 0, width: 320, height: 200, border_width: 0 }
}

#[test]
fn bind_keys_installs_default_table() {
    let mut wm = WindowManager::new(1);
    bind_keys(&mut wm);
    assert_eq!(wm.keybinds.len(), 4);
    assert_eq!(
        wm.keybinds[0],
        Keybind(24, MOD_4, KeybindFunction::FnVoidMut(MutAction::Quit))
    );
    assert_eq!(
        wm.keybinds[1],
        Keybind(44, MOD_4, KeybindFunction::FnVoidMut(MutAction::FocusNext))
    );
    assert_eq!(
        wm.keybinds[2],
        Keybind(45, MOD_4, KeybindFunction::FnVoidMut(MutAction::FocusPrev))
    );
    assert_eq!(
        wm.keybinds[3],
        Keybind(
            24,
            MOD_4 | MOD_SHIFT,
            KeybindFunction::FnResultMut(FallibleMutAction::KillFocused)
        )
    );
}

#[test]
fn set_keybinds_replaces_whole_table() {
    let mut wm = WindowManager::new(1);
    bind_keys(&mut wm);
    wm.set_keybinds(vec![Keybind(30, 8, KeybindFunction::FnVoidMut(MutAction::Quit))]);
    assert_eq!(wm.keybinds.len(), 1);
    assert_eq!(wm.keybinds[0].0, 30);
}

#[test]
fn key_press_first_registered_binding_wins() {
    let mut wm = WindowManager::new(1);
    wm.manage_window(10, &geometry());
    wm.manage_window(11, &geometry());
    // Two keybinds with identical key code and modifier mask but
    // different actions: only the first ever fires.
    wm.set_keybinds(vec![
        Keybind(24, MOD_4, KeybindFunction::FnVoidMut(MutAction::Quit)),
        Keybind(24, MOD_4, KeybindFunction::FnVoidMut(MutAction::FocusNext)),
    ]);
    let r = wm.handle_key_press(24, MOD_4);
    assert_eq!(r, Ok(vec![]));
    assert!(!wm.running);
    // The second action never rotated the registry.
    assert_eq!(wm.windows[0].window, 11);
    assert_eq!(wm.windows[1].window, 10);
}

#[test]
fn key_press_state_is_masked_to_low_seven_bits() {
    let mut wm = WindowManager::new(1);
    bind_keys(&mut wm);
    // Pointer-button bits share the state field above bit 7; they are
    // stripped before comparing against the stored modifier mask.
    let r = wm.handle_key_press(24, MOD_4 | 0x0100);
    assert_eq!(r, Ok(vec![]));
    assert!(!wm.running);
}

#[test]
fn key_press_without_match_is_noop() {
    let mut wm = WindowManager::new(1);
    bind_keys(&mut wm);
    wm.manage_window(10, &geometry());
    let r = wm.handle_key_press(99, MOD_4);
    assert_eq!(r, Ok(vec![]));
    assert!(wm.running);
    assert_eq!(wm.windows.len(), 1);
}

#[test]
fn key_press_focus_actions_rotate() {
    let mut wm = WindowManager::new(1);
    bind_keys(&mut wm);
    wm.manage_window(12, &geometry());
    wm.manage_window(11, &geometry());
    wm.manage_window(10, &geometry());
    assert_eq!(wm.handle_key_press(44, MOD_4), Ok(vec![]));
    let order: Vec<u32> = wm.windows.iter().map(|c| c.window).collect();
    assert_eq!(order, vec![11, 12, 10]);
    assert_eq!(wm.handle_key_press(45, MOD_4), Ok(vec![]));
    let order2: Vec<u32> = wm.windows.iter().map(|c| c.window).collect();
    assert_eq!(order2, vec![10, 11, 12]);
}

#[test]
fn key_press_kill_reports_window_to_kill() {
    let mut wm = WindowManager::new(1);
    bind_keys(&mut wm);
    wm.manage_window(10, &geometry());
    let r = wm.handle_key_press(24, MOD_4 | MOD_SHIFT);
    assert_eq!(r, Ok(vec![Command::KillClient(10)]));
}

#[test]
fn key_press_kill_on_empty_registry_fails() {
    let mut wm = WindowManager::new(1);
    bind_keys(&mut wm);
    let r = wm.handle_key_press(24, MOD_4 | MOD_SHIFT);
    assert_eq!(r, Err(WmError::NoFocusedClient));
    assert!(wm.running);
}

#[test]
fn grab_keys_plans_ungrab_each_bind_then_catch_all() {
    let mut wm = WindowManager::new(1);
    bind_keys(&mut wm);
    let plan = wm.grab_keys();
    assert_eq!(
        plan,
        vec![
            Command::UngrabAllKeys,
            Command::GrabKey(24, MOD_4),
            Command::GrabKey(44, MOD_4),
            Command::GrabKey(45, MOD_4),
            Command::GrabKey(24, MOD_4 | MOD_SHIFT),
            Command::GrabAnyKey,
        ]
    );
}

#[test]
fn mapping_notify_for_keyboard_refetches_and_regrabs() {
    let mut wm = WindowManager::new(1);
    wm.set_keybinds(vec![Keybind(24, MOD_4, KeybindFunction::FnVoidMut(MutAction::Quit))]);
    let cmds = wm.handle_mapping_notify(MappingKind::Keyboard, 8, 16);
    assert_eq!(
        cmds,
        vec![
            Command::GetKeyboardMapping(8, 16),
            Command::UngrabAllKeys,
            Command::GrabKey(24, MOD_4),
            Command::GrabAnyKey,
        ]
    );
}

#[test]
fn mapping_notify_for_pointer_only_refetches() {
    let wm = WindowManager::new(1);
    let cmds = wm.handle_mapping_notify(MappingKind::Pointer, 8, 16);
    assert_eq!(cmds, vec![Command::GetKeyboardMapping(8, 16)]);
}

#[test]
fn configure_request_forwards_only_masked_fields() {
    let wm = WindowManager::new(1);
    let req = ConfigureRequest {
        window: 5,
        x: -10,
        y: 20,
        width: 300,
        height: 400,
        border_width: 3,
        sibling: 8,
        stack_mode: 1,
        value_mask: 1 | 4 | 64,  // x, width, stack mode
    };
    let c = wm.handle_configure_request(&req);
    assert_eq!(
        c,
        Command::Configure(ConfigureCommand {
            window: 5,
            x: Some(-10),
            y: None,
            width: Some(300),
            height: None,
            border_width: None,
            sibling: None,
            stack_mode: Some(1),
        })
    );
}

#[test]
fn configure_request_with_full_mask_forwards_everything() {
    let wm = WindowManager::new(1);
    let req = ConfigureRequest {
        window: 6,
        x: 1,
        y: 2,
        width: 3,
        height: 4,
        border_width: 5,
        sibling: 7,
        stack_mode: 0,
        value_mask: 127,
    };
    let c = wm.handle_configure_request(&req);
    assert_eq!(
        c,
        Command::Configure(ConfigureCommand {
            window: 6,
            x: Some(1),
            y: Some(2),
            width: Some(3),
            height: Some(4),
            border_width: Some(5),
            sibling: Some(7),
            stack_mode: Some(0),
        })
    );
}

#[test]
fn handle_event_map_request_first_queries_attributes() {
    let mut wm = WindowManager::new(1);
    let r = wm.handle_event(Event::MapRequest { window: 9 });
    assert_eq!(r, Ok(vec![Command::QueryAttributes(9)]));
    assert_eq!(wm.windows.len(), 0);
}

#[test]
fn handle_event_dispatches_destroy_and_unmap() {
    let mut wm = WindowManager::new(1);
    wm.manage_window(10, &geometry());
    wm.manage_window(11, &geometry());
    assert_eq!(wm.handle_event(Event::DestroyNotify { window: 10 }), Ok(vec![]));
    assert_eq!(wm.windows.len(), 1);
    assert_eq!(wm.handle_event(Event::UnmapNotify { window: 11 }), Ok(vec![]));
    assert_eq!(wm.windows.len(), 0);
}

#[test]
fn handle_event_reserved_categories_are_noops() {
    let mut wm = WindowManager::new(1);
    wm.manage_window(10, &geometry());
    for event in [
        Event::EnterNotify,
        Event::ButtonPress,
        Event::ButtonRelease,
        Event::MotionNotify,
        Event::Other,
    ] {
        assert_eq!(wm.handle_event(event), Ok(vec![]));
        assert_eq!(wm.windows.len(), 1);
        assert!(wm.running);
    }
}

#[test]
fn register_access_violation_is_fatal_already_running() {
    assert_eq!(
        WindowManager::register_wm(RegisterReply::X11Access),
        Err(RegisterError::AlreadyRunning)
    );
}

#[test]
fn register_success_completes() {
    assert_eq!(WindowManager::register_wm(RegisterReply::Success), Ok(()));
}

#[test]
fn register_other_failures_propagate() {
    assert_eq!(
        WindowManager::register_wm(RegisterReply::X11Other),
        Err(RegisterError::Failed)
    );
    assert_eq!(
        WindowManager::register_wm(RegisterReply::Connection),
        Err(RegisterError::Failed)
    );
}
