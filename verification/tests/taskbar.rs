use netdisk_monitor::taskbar::{
    child_window_style, classic_geometry_ok, classic_layout, horizontal_placement, position_windows11,
    windows11_geometry_ok, windows11_placement, Rect,
    TaskbarMode, TaskbarPlacement, TaskbarSession, WindowMove,
};

#[test]
fn horizontal_taskbar_reserves_space_without_overlapping_app_icons() {
    assert_eq!(horizontal_placement(900, 48, 248, 40), (652, 654, 6));
}

#[test]
fn windows11_taskbar_places_monitor_before_the_notification_area() {
    assert_eq!(windows11_placement(1920, 48, 48, Some(1620), 248, 40), (1364, 6));
}

#[test]
fn windows11_taskbar_places_monitor_on_left_when_centered() {
    assert_eq!(windows11_placement(1920, 48, 800, Some(1620), 248, 40), (180, 6));
}

#[test]
fn narrow_task_list_is_not_shrunk_below_zero() {
    assert_eq!(horizontal_placement(100, 48, 248, 40), (0, 2, 6));
}

#[test]
fn tall_monitor_is_not_placed_above_the_bar() {
    // (30 - 60) / 2 rounds toward zero to -15; the nudge is 1; clamped to 0.
    assert_eq!(horizontal_placement(900, 30, 248, 60), (652, 654, 0));
    // (30 - 35) / 2 is -2 (toward zero), plus a nudge of 1: still above, so 0.
    assert_eq!(horizontal_placement(900, 30, 248, 35).2, 0);
    // (60 - 58) / 2 = 1, nudge 60 / 20 = 3.
    assert_eq!(horizontal_placement(900, 60, 248, 58).2, 4);
}

#[test]
fn windows11_estimates_notification_area_when_unknown() {
    // 1920 - 280 - 248 - 8 = 1384.
    assert_eq!(windows11_placement(1920, 48, 48, None, 248, 40), (1384, 6));
    // No room before the notification area: the monitor starts at the left edge.
    assert_eq!(windows11_placement(1920, 48, 48, Some(100), 248, 40), (0, 6));
    // Exactly at the centring threshold the taskbar counts as left-aligned.
    assert_eq!(windows11_placement(1920, 48, 120, Some(1620), 248, 40), (1364, 6));
}

fn rect(left: i32, top: i32, right: i32, bottom: i32) -> Rect {
    Rect { left, top, right, bottom }
}

#[test]
fn windows11_position_uses_offsets_within_the_taskbar() {
    let taskbar = rect(0, 1032, 1920, 1080);
    let start = rect(48, 1032, 96, 1080);
    let notify = rect(1620, 1032, 1920, 1080);
    let m = position_windows11(7, taskbar, Some(start), Some(notify), 248, 40);
    assert_eq!(m, WindowMove { window: 7, x: 1364, y: 6, width: 248, height: 40 });
    // Unreadable Start button: the taskbar's own rectangle stands in (offset 0).
    let m = position_windows11(7, taskbar, None, None, 248, 40);
    assert_eq!(m, WindowMove { window: 7, x: 1384, y: 6, width: 248, height: 40 });
}

#[test]
fn classic_horizontal_layout_shrinks_the_task_list() {
    let taskbar = rect(0, 1040, 1920, 1080);
    let rebar = rect(100, 1040, 1800, 1080);
    let task_list = rect(150, 1040, 1050, 1088);
    let layout = classic_layout(1, 2, taskbar, rebar, task_list, 248, 40);
    assert_eq!(layout.task_list_move, WindowMove { window: 2, x: 50, y: 0, width: 652, height: 48 });
    // rebar height 40: (40 - 40) / 2 + 2 = 2.
    assert_eq!(layout.overlay_move, WindowMove { window: 1, x: 704, y: 2, width: 248, height: 40 });
}

#[test]
fn classic_vertical_layout_puts_monitor_below_the_task_list() {
    let taskbar = rect(0, 0, 60, 1080);
    let rebar = rect(0, 40, 60, 1000);
    let task_list = rect(0, 100, 60, 900);
    let layout = classic_layout(1, 2, taskbar, rebar, task_list, 50, 42);
    assert_eq!(layout.task_list_move, WindowMove { window: 2, x: 0, y: 60, width: 60, height: 758 });
    assert_eq!(layout.overlay_move, WindowMove { window: 1, x: 5, y: 818, width: 50, height: 42 });
}

#[test]
fn restoring_a_classic_session_moves_both_windows_back() {
    let session = TaskbarSession {
        overlay: 1,
        overlay_rect: rect(300, 8, 636, 52),
        overlay_style: 0x1234,
        placement: TaskbarPlacement::Classic {
            task_list: 2,
            task_list_rect: rect(150, 1040, 1050, 1088),
            rebar_rect: rect(100, 1040, 1800, 1080),
        },
    };
    assert_eq!(
        session.restore_moves(),
        vec![
            WindowMove { window: 1, x: 300, y: 8, width: 336, height: 44 },
            WindowMove { window: 2, x: 50, y: 0, width: 900, height: 48 },
        ]
    );
    let windows11 = TaskbarSession { placement: TaskbarPlacement::Windows11, ..session };
    assert_eq!(windows11.restore_moves(), vec![WindowMove { window: 1, x: 300, y: 8, width: 336, height: 44 }]);
}

#[test]
fn taskbar_mode_enable_resize_disable() {
    let session = TaskbarSession {
        overlay: 9,
        overlay_rect: rect(0, 0, 10, 10),
        overlay_style: 0,
        placement: TaskbarPlacement::Windows11,
    };
    let mut mode = TaskbarMode::default();
    assert!(!mode.is_enabled());
    assert_eq!(mode.resize(), None);
    mode.enable(session);
    assert!(mode.is_enabled());
    assert_eq!(mode.resize(), Some(9));
    // Enabling again keeps the first session.
    mode.enable(TaskbarSession { overlay: 3, ..session });
    assert_eq!(mode.resize(), Some(9));
    assert_eq!(mode.disable(), Some(session));
    assert!(!mode.is_enabled());
    assert_eq!(mode.disable(), None);
}

#[test]
fn classic_session_needs_no_reposition_on_resize() {
    let mut mode = TaskbarMode::default();
    mode.enable(TaskbarSession {
        overlay: 9,
        overlay_rect: rect(0, 0, 10, 10),
        overlay_style: 0,
        placement: TaskbarPlacement::Classic { task_list: 2, task_list_rect: rect(0, 0, 1, 1), rebar_rect: rect(0, 0, 1, 1) },
    });
    assert_eq!(mode.resize(), None);
}

#[test]
fn child_style_drops_popup_and_adds_child() {
    assert_eq!(child_window_style(0x8000_0000 | 0x10), 0x4000_0010);
    assert_eq!(child_window_style(0), 0x4000_0000);
}

#[test]
fn geometry_checks_reject_overflowing_rectangles() {
    let taskbar = rect(0, 1032, 1920, 1080);
    assert!(windows11_geometry_ok(taskbar, None, None, 248, 40));
    assert!(!windows11_geometry_ok(rect(i32::MIN, 0, i32::MAX, 48), None, None, 248, 40));
    // Left-aligned taskbar with a notification area far to the left: the
    // gap computation would leave i32.
    assert!(!windows11_geometry_ok(
        rect(i32::MAX - 10, 0, i32::MAX, 48),
        Some(rect(i32::MAX - 10, 0, i32::MAX, 48)),
        Some(rect(i32::MIN, 0, 0, 48)),
        248,
        40
    ));
    let rebar = rect(100, 1040, 1800, 1080);
    let task_list = rect(150, 1040, 1050, 1088);
    assert!(classic_geometry_ok(taskbar, rebar, task_list, 248, 40));
    assert!(!classic_geometry_ok(taskbar, rebar, rect(i32::MIN, 0, i32::MAX, 10), 248, 40));
}

#[test]
fn restorability_check() {
    let ok = TaskbarSession {
        overlay: 1,
        overlay_rect: rect(0, 0, 10, 10),
        overlay_style: 0,
        placement: TaskbarPlacement::Windows11,
    };
    assert!(ok.is_restorable());
    let bad = TaskbarSession { overlay_rect: rect(i32::MIN, 0, 1, 1), ..ok };
    assert!(!bad.is_restorable());
}

#[test]
fn horizontal_layout_ignores_the_rebar_width() {
    let taskbar = rect(0, 1040, 1920, 1080);
    // A rebar so wide that its width leaves i32; only its height is used.
    let rebar = rect(-100, 1040, i32::MAX, 1080);
    let task_list = rect(150, 1040, 1050, 1088);
    assert!(classic_geometry_ok(taskbar, rebar, task_list, 248, 40));
    let layout = classic_layout(1, 2, taskbar, rebar, task_list, 248, 40);
    assert_eq!(layout.task_list_move, WindowMove { window: 2, x: 250, y: 0, width: 652, height: 48 });
    assert_eq!(layout.overlay_move, WindowMove { window: 1, x: 904, y: 2, width: 248, height: 40 });
}
