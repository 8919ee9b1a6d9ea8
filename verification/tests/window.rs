use orbit::geometry::{Frame, Rect};
use orbit::window::{
    bar_ex_style, bar_needs_restore, bar_work_area, check_compensation_fits, bar_setup_due, compensated_frame,
    is_manageable, is_tileable, needs_restore, WindowFacts, BAR_HEIGHT, MIN_SIZE, WS_CHILD, WS_EX_TOOLWINDOW, WS_MAXIMIZE,
    WS_MINIMIZE,
};

fn plain() -> WindowFacts {
    WindowFacts { visible: true, on_current_desktop: Some(true), has_owner: false, cloaked: 0, style: 0x00CF_0000, ex_style: 0x100 }
}

#[test]
fn ordinary_window_is_manageable() {
    assert!(is_manageable(&plain()));
    assert!(is_manageable(&WindowFacts { on_current_desktop: None, ..plain() }));
}

#[test]
fn excluded_windows_are_not_manageable() {
    assert!(!is_manageable(&WindowFacts { visible: false, ..plain() }));
    assert!(!is_manageable(&WindowFacts { on_current_desktop: Some(false), ..plain() }));
    assert!(!is_manageable(&WindowFacts { has_owner: true, ..plain() }));
    assert!(!is_manageable(&WindowFacts { cloaked: 2, ..plain() }));
    assert!(!is_manageable(&WindowFacts { style: plain().style | WS_CHILD, ..plain() }));
    assert!(!is_manageable(&WindowFacts { ex_style: WS_EX_TOOLWINDOW, ..plain() }));
}

#[test]
fn restore_only_when_maximized_or_minimized() {
    assert!(needs_restore(WS_MAXIMIZE));
    assert!(needs_restore(WS_MINIMIZE | 0x10));
    assert!(!needs_restore(0x00CF_0000));
}

#[test]
fn compensation_adds_borders() {
    let target = Frame { x: 12, y: 46, w: 942, h: 1022 };
    let visible = Rect { left: 107, top: 100, right: 407, bottom: 393 };
    let raw = Rect { left: 100, top: 100, right: 414, bottom: 400 };
    let r = compensated_frame(target, Some(visible), raw);
    assert_eq!(r, Frame { x: 5, y: 46, w: 956, h: 1029 });
    // the visible frame of the moved window lands on the target
    assert_eq!(r.x + 7, target.x);
    assert_eq!((r.x + r.w - 7) - (r.x + 7), target.w);
}

#[test]
fn compensation_without_frame_bounds() {
    let target = Frame { x: 3, y: 4, w: 500, h: 600 };
    let raw = Rect { left: 0, top: 0, right: 0, bottom: 0 };
    assert_eq!(compensated_frame(target, None, raw), target);
}

#[test]
fn compensation_keeps_minimum_size() {
    let target = Frame { x: 0, y: 0, w: -3, h: 2 };
    let raw = Rect { left: 0, top: 0, right: 0, bottom: 0 };
    assert_eq!(compensated_frame(target, None, raw), Frame { x: 0, y: 0, w: MIN_SIZE, h: MIN_SIZE });
    let visible = Rect { left: 1, top: 0, right: 9, bottom: 9 };
    let raw = Rect { left: 0, top: 0, right: 10, bottom: 10 };
    assert_eq!(compensated_frame(target, Some(visible), raw), Frame { x: -1, y: 0, w: 12, h: 11 });
}

#[test]
fn compensation_overflow_is_detected() {
    let target = Frame { x: i32::MIN, y: 0, w: 10, h: 10 };
    let visible = Rect { left: 1, top: 0, right: 9, bottom: 9 };
    let raw = Rect { left: 0, top: 0, right: 10, bottom: 10 };
    assert!(!check_compensation_fits(target, Some(visible), raw));
    assert!(check_compensation_fits(target, None, raw));
    assert!(check_compensation_fits(Frame { x: 0, ..target }, Some(visible), raw));
}

#[test]
fn bar_setup_decisions() {
    assert_eq!(bar_ex_style(0x100), 0x180);
    assert_eq!(bar_ex_style(0x80), 0x80);
    let wa = Rect { left: 0, top: 0, right: 1920, bottom: 1040 };
    assert_eq!(bar_work_area(wa), Some(Rect { top: BAR_HEIGHT, ..wa }));
    assert_eq!(bar_work_area(Rect { top: 36, ..wa }), None);
    assert_eq!(bar_work_area(Rect { top: 50, ..wa }), None);
    assert!(bar_needs_restore(WS_MINIMIZE, true));
    assert!(bar_needs_restore(0, false));
    assert!(!bar_needs_restore(0, true));
}

#[test]
fn bar_is_set_up_once() {
    let bar = "OrbitBar".to_string();
    let other = "Notepad".to_string();
    let mut registered = false;
    assert!(!bar_setup_due(&mut registered, &other));
    assert!(!registered);
    assert!(bar_setup_due(&mut registered, &bar));
    assert!(registered);
    assert!(!bar_setup_due(&mut registered, &bar));
    assert!(!bar_setup_due(&mut registered, &other));
    assert!(registered);
}

#[test]
fn bar_is_never_tiled() {
    let bar = "OrbitBar".to_string();
    assert!(!is_tileable(&bar, &plain()));
    assert!(is_tileable(&"Notepad".to_string(), &plain()));
    assert!(!is_tileable(&"Notepad".to_string(), &WindowFacts { visible: false, ..plain() }));
    assert!(is_tileable(&String::new(), &plain()));
}
