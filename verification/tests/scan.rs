//! The startup scan and the map-request decision.

use minwm::{
    Event, Geometry, MapDecision, MapState, ScanItem, WindowAttributes, WindowManager,
};

fn geometry(x: i16) -> Geometry {
    Geometry { x, y: 0, width: 100, height: 100, border_width: 1 }
}

fn attrs(override_redirect: bool, map_state: MapState) -> WindowAttributes {
    WindowAttributes { override_redirect, map_state }
}

#[test]
fn scan_adopts_only_eligible_children() {
    let mut wm = WindowManager::new(1);
    let items = vec![
        ScanItem {
            window: 10,
            attr: Some(attrs(false, MapState::Viewable)),
            geom: Some(geometry(10)),
        },
        ScanItem {
            window: 11,
            attr: Some(attrs(true, MapState::Viewable)),  // override-redirect: skipped
            geom: Some(geometry(11)),
        },
        ScanItem {
            window: 12,
            attr: Some(attrs(false, MapState::Unmapped)),  // unmapped: skipped
            geom: Some(geometry(12)),
        },
        ScanItem {
            window: 13,
            attr: None,  // failed attribute query: skipped
            geom: Some(geometry(13)),
        },
        ScanItem {
            window: 14,
            attr: Some(attrs(false, MapState::Unviewable)),
            geom: None,  // failed geometry query: skipped
        },
        ScanItem {
            window: 15,
            attr: Some(attrs(false, MapState::Unviewable)),
            geom: Some(geometry(15)),
        },
    ];
    wm.scan_existing(&items);
    let order: Vec<u32> = wm.windows.iter().map(|c| c.window).collect();
    // Adopted children are pushed to the front in scan order.
    assert_eq!(order, vec![15, 10]);
    assert_eq!(wm.windows[1].x, 10);
    assert_eq!(wm.windows[0].x, 15);
}

#[test]
fn scan_of_no_children_changes_nothing() {
    let mut wm = WindowManager::new(1);
    wm.scan_existing(&vec![]);
    assert_eq!(wm.windows.len(), 0);
    assert!(wm.running);
}

#[test]
fn override_redirect_window_never_enters_registry() {
    let mut wm = WindowManager::new(1);
    let items = vec![ScanItem {
        window: 21,
        attr: Some(attrs(true, MapState::Viewable)),
        geom: Some(geometry(0)),
    }];
    wm.scan_existing(&items);
    assert!(wm.windows.iter().all(|c| c.window != 21));

    // The same window keeps being refused on a later map request.
    let d = wm.handle_map_request(21, Some(attrs(true, MapState::Viewable)));
    assert_eq!(d, MapDecision::Ignore);
    assert!(wm.windows.iter().all(|c| c.window != 21));
}

#[test]
fn map_request_for_managed_window_is_ignored() {
    let mut wm = WindowManager::new(1);
    wm.manage_window(9, &geometry(0));
    let d = wm.handle_map_request(9, Some(attrs(false, MapState::Viewable)));
    // No duplicate client and no second map command.
    assert_eq!(d, MapDecision::Ignore);
    assert_eq!(wm.windows.len(), 1);
}

#[test]
fn map_request_for_new_window_is_accepted() {
    let mut wm = WindowManager::new(1);
    let d = wm.handle_map_request(9, Some(attrs(false, MapState::Viewable)));
    assert_eq!(d, MapDecision::Manage);
    // The loop then maps the window, queries its geometry and adopts it.
    wm.manage_window(9, &geometry(3));
    assert_eq!(wm.windows.len(), 1);
    assert_eq!(wm.windows[0].window, 9);
    assert_eq!(wm.windows[0].x, 3);
}

#[test]
fn map_request_with_failed_attribute_query_is_abandoned() {
    let wm = WindowManager::new(1);
    let d = wm.handle_map_request(9, None);
    assert_eq!(d, MapDecision::Ignore);
}

#[test]
fn map_request_event_then_decision_keeps_ids_unique() {
    let mut wm = WindowManager::new(1);
    wm.manage_window(9, &geometry(0));
    let r = wm.handle_event(Event::MapRequest { window: 9 });
    assert!(r.is_ok());
    let d = wm.handle_map_request(9, Some(attrs(false, MapState::Viewable)));
    assert_eq!(d, MapDecision::Ignore);
    assert_eq!(wm.windows.len(), 1);
}

#[test]
fn setup_scans_and_plans_grabs() {
    let mut wm = WindowManager::new(1);
    minwm::bind_keys(&mut wm);
    let items = vec![ScanItem {
        window: 30,
        attr: Some(attrs(false, MapState::Viewable)),
        geom: Some(geometry(2)),
    }];
    let grabs = wm.setup(&items);
    assert_eq!(wm.windows.len(), 1);
    assert_eq!(wm.windows[0].window, 30);
    // One release, one grab per keybind, one catch-all.
    assert_eq!(grabs.len(), wm.keybinds.len() + 2);
    assert_eq!(grabs[0], minwm::Command::UngrabAllKeys);
    assert_eq!(grabs[grabs.len() - 1], minwm::Command::GrabAnyKey);
}

#[test]
fn cleanup_leaves_state_alone() {
    let mut wm = WindowManager::new(1);
    wm.manage_window(9, &geometry(0));
    wm.cleanup();
    assert_eq!(wm.windows.len(), 1);
    assert!(wm.running);
}
