use orbit::events::{
    command_of, hotkey_bindings, on_departure, on_existing_window, on_inspection, route_event, Command, Departure,
    EventRoute, HotkeyBinding, EVENT_OBJECT_CREATE, EVENT_OBJECT_DESTROY, EVENT_OBJECT_HIDE, EVENT_OBJECT_SHOW,
    EVENT_SYSTEM_DESKTOPSWITCH, EVENT_SYSTEM_FOREGROUND, HOTKEY_CLOSE, HOTKEY_QUIT, HOTKEY_TERM, WM_HOTKEY,
};
use orbit::workspace::Workspace;

fn ws(handles: &[isize]) -> Workspace {
    let mut w = Workspace::new();
    for &h in handles {
        w.adopt(h);
    }
    w
}

#[test]
fn event_codes() {
    assert_eq!(EVENT_SYSTEM_FOREGROUND, 3);
    assert_eq!(EVENT_SYSTEM_DESKTOPSWITCH, 32);
    assert_eq!(EVENT_OBJECT_CREATE, 32768);
    assert_eq!(EVENT_OBJECT_DESTROY, 32769);
    assert_eq!(EVENT_OBJECT_SHOW, 32770);
    assert_eq!(EVENT_OBJECT_HIDE, 32771);
}

#[test]
fn routes() {
    assert_eq!(route_event(EVENT_OBJECT_CREATE, 0), EventRoute::Ignore);
    assert_eq!(route_event(EVENT_OBJECT_DESTROY, 0), EventRoute::Ignore);
    assert_eq!(route_event(EVENT_OBJECT_DESTROY, 7), EventRoute::Departure);
    assert_eq!(route_event(EVENT_OBJECT_HIDE, 7), EventRoute::Departure);
    assert_eq!(route_event(EVENT_SYSTEM_FOREGROUND, 7), EventRoute::Inspect { refresh: true });
    assert_eq!(route_event(EVENT_SYSTEM_DESKTOPSWITCH, 7), EventRoute::Inspect { refresh: true });
    assert_eq!(route_event(EVENT_OBJECT_CREATE, 7), EventRoute::Inspect { refresh: false });
    assert_eq!(route_event(EVENT_OBJECT_SHOW, 7), EventRoute::Inspect { refresh: false });
    assert_eq!(route_event(0x800B, 7), EventRoute::Inspect { refresh: false });
}

#[test]
fn departure_of_bar_restores_it() {
    let mut w = ws(&[1, 2]);
    assert_eq!(on_departure(&mut w, 1, &"OrbitBar".to_string()), Departure::RestoreBar);
    assert_eq!(w.handles, vec![1, 2]);
}

#[test]
fn departure_of_tiled_window_untracks_it() {
    let mut w = ws(&[1, 2, 3]);
    assert_eq!(on_departure(&mut w, 2, &"Notepad".to_string()), Departure::Untracked);
    assert_eq!(w.handles, vec![1, 3]);
    assert_eq!(on_departure(&mut w, 2, &String::new()), Departure::NotTiled);
    assert_eq!(w.handles, vec![1, 3]);
}

#[test]
fn arrival_tiles_manageable_titled_window() {
    let mut w = ws(&[1]);
    let t = "Terminal".to_string();
    assert!(on_inspection(&mut w, EVENT_OBJECT_CREATE, 5, true, &t));
    assert!(!on_inspection(&mut w, EVENT_OBJECT_SHOW, 5, true, &t));
    assert!(on_inspection(&mut w, EVENT_OBJECT_SHOW, 6, true, &t));
    assert_eq!(w.handles, vec![1, 5, 6]);
}

#[test]
fn inspection_leaves_others_alone() {
    let mut w = ws(&[1]);
    let t = "Terminal".to_string();
    assert!(!on_inspection(&mut w, EVENT_OBJECT_CREATE, 5, false, &t));
    assert!(!on_inspection(&mut w, EVENT_OBJECT_CREATE, 5, true, &String::new()));
    assert!(!on_inspection(&mut w, EVENT_SYSTEM_FOREGROUND, 5, true, &t));
    assert_eq!(w.handles, vec![1]);
}

#[test]
fn existing_windows_are_adopted() {
    let mut w = Workspace::new();
    assert!(on_existing_window(&mut w, 4, true, &"Editor".to_string()));
    assert!(!on_existing_window(&mut w, 5, false, &"Editor".to_string()));
    assert!(!on_existing_window(&mut w, 6, true, &String::new()));
    assert_eq!(w.handles, vec![4]);
}

#[test]
fn hotkey_commands() {
    assert_eq!(command_of(WM_HOTKEY, 1), Command::Quit);
    assert_eq!(command_of(WM_HOTKEY, 2), Command::LaunchTerminal);
    assert_eq!(command_of(WM_HOTKEY, 3), Command::CloseActive);
    assert_eq!(command_of(WM_HOTKEY, 4), Command::Nothing);
    assert_eq!(command_of(WM_HOTKEY, (1usize << 32) + 1), Command::Quit);
    assert_eq!(command_of(0x0100, 1), Command::Nothing);
}

#[test]
fn hotkey_table() {
    assert_eq!(
        hotkey_bindings(),
        vec![
            HotkeyBinding { id: HOTKEY_QUIT, modifiers: 9, key: 0x51 },
            HotkeyBinding { id: HOTKEY_TERM, modifiers: 9, key: 0x0D },
            HotkeyBinding { id: HOTKEY_CLOSE, modifiers: 9, key: 0x43 },
        ]
    );
}
