//! What the window manager does on window events and hotkeys. The caller
//! asks the window system for what a step needs, and performs what it
//! returns.
use vstd::prelude::*;
use crate::text::{bar_title, is_bar_title};
use crate::workspace::{no_duplicates, with_tracked, without_first, Workspace};

verus! {

/// The foreground window changed.
pub const EVENT_SYSTEM_FOREGROUND: u32 = 0x0003;

/// The active virtual desktop changed.
pub const EVENT_SYSTEM_DESKTOPSWITCH: u32 = 0x0020;

/// A window was created.
pub const EVENT_OBJECT_CREATE: u32 = 0x8000;

/// A window was destroyed.
pub const EVENT_OBJECT_DESTROY: u32 = 0x8001;

/// A window was shown.
pub const EVENT_OBJECT_SHOW: u32 = 0x8002;

/// A window was hidden.
pub const EVENT_OBJECT_HIDE: u32 = 0x8003;

/// How a window event is handled.
#[derive(Clone, Copy, Debug, PartialEq, Eq, Structural)]
pub enum EventRoute {
    /// The event concerns no window: nothing to do.
    Ignore,
    /// The window went away: see `on_departure`.
    Departure,
    /// The window may have to be tiled: see `on_inspection`. When `refresh`
    /// is set, the status payload is broadcast and the layout applied first.
    Inspect { refresh: bool },
}

/// The route of a window event.
pub open spec fn spec_route(event: u32, hwnd: isize) -> EventRoute {
    if hwnd == 0 {
        EventRoute::Ignore
    } else if event == EVENT_OBJECT_DESTROY || event == EVENT_OBJECT_HIDE {
        EventRoute::Departure
    } else {
        EventRoute::Inspect {
            refresh: event == EVENT_SYSTEM_FOREGROUND || event == EVENT_SYSTEM_DESKTOPSWITCH,
        }
    }
}

/// Routes a window event about window `hwnd` (0 for none).
pub fn route_event(event: u32, hwnd: isize) -> (r: EventRoute)
    ensures
        r == spec_route(event, hwnd),
{
    if hwnd == 0 {
        return EventRoute::Ignore;
    }
    if event == EVENT_OBJECT_DESTROY || event == EVENT_OBJECT_HIDE {
        return EventRoute::Departure;
    }
    EventRoute::Inspect { refresh: event == EVENT_SYSTEM_FOREGROUND || event == EVENT_SYSTEM_DESKTOPSWITCH }
}

/// Law: an event about no window (handle 0) is ignored; for a window, the
/// destroy and hide events (`0x8001`, `0x8003`) are departures, and every
/// other event is inspected, the status and layout being refreshed first
/// exactly on a foreground change (`0x0003`) or a desktop switch (`0x0020`).
pub proof fn law_routes(event: u32, hwnd: isize)
    ensures
        hwnd == 0 ==> spec_route(event, hwnd) == EventRoute::Ignore,
        hwnd != 0 ==> (spec_route(event, hwnd) == EventRoute::Departure <==> (event == 0x8001 || event == 0x8003)),
        hwnd != 0 ==> (spec_route(event, hwnd) == (EventRoute::Inspect { refresh: true }) <==> (event == 0x0003
            || event == 0x0020)),
        hwnd != 0 && event != 0x8001 && event != 0x8003 && event != 0x0003 && event != 0x0020 ==> spec_route(event, hwnd)
            == (EventRoute::Inspect { refresh: false }),
{
}

/// What follows a window going away.
#[derive(Clone, Copy, Debug, PartialEq, Eq, Structural)]
pub enum Departure {
    /// The status bar was hidden: show it again.
    RestoreBar,
    /// A tiled window went away: apply the layout again.
    Untracked,
    /// The window was not tiled: nothing to do.
    NotTiled,
}

/// Handles window `hwnd`, titled `title`, being destroyed or hidden: the
/// status bar is to be shown again; any other window stops being tiled.
pub fn on_departure(ws: &mut Workspace, hwnd: isize, title: &String) -> (r: Departure)
    ensures
        title@ == bar_title() ==> r == Departure::RestoreBar && final(ws)@ == old(ws)@,
        title@ != bar_title() ==> final(ws)@ == without_first(old(ws)@, hwnd)
            && (r == Departure::Untracked <==> old(ws)@.contains(hwnd))
            && (r == Departure::NotTiled <==> !old(ws)@.contains(hwnd)),
{
    if is_bar_title(title) {
        return Departure::RestoreBar;
    }
    if ws.untrack(hwnd) {
        Departure::Untracked
    } else {
        Departure::NotTiled
    }
}

/// Whether an event makes a window appear: created or shown.
pub open spec fn is_arrival(event: u32) -> bool {
    event == EVENT_OBJECT_CREATE || event == EVENT_OBJECT_SHOW
}

/// Law: a window appears on its creation (`0x8000`) or when it is shown
/// (`0x8002`), and on no other event.
pub proof fn law_arrivals(event: u32)
    ensures
        is_arrival(event) <==> (event == 0x8000 || event == 0x8002),
{
}

/// Handles an event about window `hwnd` that is not a departure: a window
/// that is created or shown, is to be tiled and has a title is added to the
/// workspace unless it is there. Tells whether it was added, when the layout
/// is to be applied again.
pub fn on_inspection(ws: &mut Workspace, event: u32, hwnd: isize, manageable: bool, title: &String) -> (added: bool)
    ensures
        manageable && title@.len() > 0 && is_arrival(event) ==> final(ws)@ == with_tracked(old(ws)@, hwnd)
            && added == !old(ws)@.contains(hwnd),
        !(manageable && title@.len() > 0 && is_arrival(event)) ==> final(ws)@ == old(ws)@ && !added,
        no_duplicates(old(ws)@) ==> no_duplicates(final(ws)@),
{
    proof {
        if no_duplicates(old(ws)@) {
            crate::workspace::law_track_keeps_distinct(old(ws)@, hwnd);
        }
    }
    if !manageable {
        return false;
    }
    if title.as_str().is_empty() {
        return false;
    }
    if event == EVENT_OBJECT_CREATE || event == EVENT_OBJECT_SHOW {
        ws.track(hwnd)
    } else {
        false
    }
}

/// Handles a window found at start-up: it is tiled when it is to be tiled
/// and has a title. Tells whether it was added.
pub fn on_existing_window(ws: &mut Workspace, hwnd: isize, manageable: bool, title: &String) -> (added: bool)
    ensures
        added == (manageable && title@.len() > 0),
        added ==> final(ws)@ == old(ws)@.push(hwnd),
        !added ==> final(ws)@ == old(ws)@,
{
    if manageable && !title.as_str().is_empty() {
        ws.adopt(hwnd);
        true
    } else {
        false
    }
}

/// Law: handling a departure never makes a window occur twice, and a window
/// other than the status bar is no longer tiled once it went away.
pub proof fn law_departure_untiles(old_ws: Seq<isize>, hwnd: isize)
    requires
        no_duplicates(old_ws),
    ensures
        no_duplicates(without_first(old_ws, hwnd)),
        !without_first(old_ws, hwnd).contains(hwnd),
{
    crate::workspace::law_untrack_removes(old_ws, hwnd);
}

/// The hotkey message.
pub const WM_HOTKEY: u32 = 0x0312;

/// Modifier bit of the Alt key.
pub const MOD_ALT: u32 = 0x0001;

/// Modifier bit of the Windows key.
pub const MOD_WIN: u32 = 0x0008;

/// Hotkey id: quit the window manager (Win+Alt+Q).
pub const HOTKEY_QUIT: i32 = 1;

/// Hotkey id: open a terminal (Win+Alt+Enter).
pub const HOTKEY_TERM: i32 = 2;

/// Hotkey id: close the active window (Win+Alt+C).
pub const HOTKEY_CLOSE: i32 = 3;

/// A global hotkey to register: its id, modifier bits and virtual key code.
#[derive(Clone, Copy, Debug, PartialEq, Eq, Structural)]
pub struct HotkeyBinding {
    pub id: i32,
    pub modifiers: u32,
    pub key: u32,
}

/// The hotkeys, all with Windows and Alt held: Q quits, Enter opens a
/// terminal, C closes the active window.
pub open spec fn spec_bindings() -> Seq<HotkeyBinding> {
    seq![
        HotkeyBinding { id: HOTKEY_QUIT, modifiers: MOD_WIN | MOD_ALT, key: 0x51 },
        HotkeyBinding { id: HOTKEY_TERM, modifiers: MOD_WIN | MOD_ALT, key: 0x0D },
        HotkeyBinding { id: HOTKEY_CLOSE, modifiers: MOD_WIN | MOD_ALT, key: 0x43 },
    ]
}

/// Law: three hotkeys are registered, each with Windows and Alt held
/// (modifier bits 8 and 1): id 1 on Q (`0x51`), id 2 on Enter (`0x0D`),
/// id 3 on C (`0x43`).
pub proof fn law_hotkey_table()
    ensures
        spec_bindings().len() == 3,
        spec_bindings()[0] == (HotkeyBinding { id: 1, modifiers: 9, key: 0x51 }),
        spec_bindings()[1] == (HotkeyBinding { id: 2, modifiers: 9, key: 0x0D }),
        spec_bindings()[2] == (HotkeyBinding { id: 3, modifiers: 9, key: 0x43 }),
{
    assert(MOD_WIN | MOD_ALT == 9) by (bit_vector);
}

/// The hotkeys to register, in order.
pub fn hotkey_bindings() -> (r: Vec<HotkeyBinding>)
    ensures
        r@ == spec_bindings(),
{
    let mods = MOD_WIN | MOD_ALT;
    let mut r: Vec<HotkeyBinding> = Vec::new();
    r.push(HotkeyBinding { id: HOTKEY_QUIT, modifiers: mods, key: 0x51 });
    r.push(HotkeyBinding { id: HOTKEY_TERM, modifiers: mods, key: 0x0D });
    r.push(HotkeyBinding { id: HOTKEY_CLOSE, modifiers: mods, key: 0x43 });
    assert(r@ =~= spec_bindings());
    r
}

/// What a message of the message loop asks for.
#[derive(Clone, Copy, Debug, PartialEq, Eq, Structural)]
pub enum Command {
    Quit,
    LaunchTerminal,
    CloseActive,
    Nothing,
}

/// The command of a message: a hotkey message carries the hotkey id in the
/// low 32 bits of its `wparam`.
pub open spec fn spec_command(message: u32, wparam: usize) -> Command {
    if message != WM_HOTKEY {
        Command::Nothing
    } else {
        let id = wparam as i32;
        if id == HOTKEY_QUIT {
            Command::Quit
        } else if id == HOTKEY_TERM {
            Command::LaunchTerminal
        } else if id == HOTKEY_CLOSE {
            Command::CloseActive
        } else {
            Command::Nothing
        }
    }
}

/// Law: only the hotkey message (`0x0312`) gives a command, by the low 32
/// bits of its `wparam`: 1 quits, 2 opens a terminal, 3 closes the active
/// window, anything else does nothing.
pub proof fn law_commands(message: u32, wparam: usize)
    ensures
        message != 0x0312 ==> spec_command(message, wparam) == Command::Nothing,
        message == 0x0312 && wparam as i32 == 1 ==> spec_command(message, wparam) == Command::Quit,
        message == 0x0312 && wparam as i32 == 2 ==> spec_command(message, wparam) == Command::LaunchTerminal,
        message == 0x0312 && wparam as i32 == 3 ==> spec_command(message, wparam) == Command::CloseActive,
        message == 0x0312 && !(1 <= wparam as i32 <= 3) ==> spec_command(message, wparam) == Command::Nothing,
{
}

/// The command of a message of the message loop.
pub fn command_of(message: u32, wparam: usize) -> (r: Command)
    ensures
        r == spec_command(message, wparam),
{
    if message != WM_HOTKEY {
        return Command::Nothing;
    }
    let id = #[verifier::truncate] (wparam as i32);
    if id == HOTKEY_QUIT {
        Command::Quit
    } else if id == HOTKEY_TERM {
        Command::LaunchTerminal
    } else if id == HOTKEY_CLOSE {
        Command::CloseActive
    } else {
        Command::Nothing
    }
}

} // verus!
