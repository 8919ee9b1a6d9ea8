//! Decisions about single windows: which windows are tiled, how a window is
//! moved so that its visible frame lands on its tile, and how the status bar
//! is kept in place.
use vstd::prelude::*;
use crate::geometry::{fits, fits_i32, Frame, Rect};
use crate::text::{bar_title, is_bar_title};

verus! {

/// Window style bit of a child window.
pub const WS_CHILD: u32 = 0x4000_0000;

/// Window style bit of a maximized window.
pub const WS_MAXIMIZE: u32 = 0x0100_0000;

/// Window style bit of a minimized window.
pub const WS_MINIMIZE: u32 = 0x2000_0000;

/// Extended window style bit of a tool window.
pub const WS_EX_TOOLWINDOW: u32 = 0x80;

/// The height of the status bar, in pixels.
pub const BAR_HEIGHT: i32 = 36;

/// The smallest width and height a window is given.
pub const MIN_SIZE: i32 = 10;

/// What the window system tells about a window that is not the status bar.
pub struct WindowFacts {
    /// The window is visible.
    pub visible: bool,
    /// Whether the window is on the current virtual desktop; `None` when the
    /// virtual desktop manager could not be asked or did not answer.
    pub on_current_desktop: Option<bool>,
    /// The window has an owner window.
    pub has_owner: bool,
    /// The compositor's cloaked attribute (0 when not cloaked or unknown).
    pub cloaked: u32,
    /// The window style.
    pub style: u32,
    /// The extended window style.
    pub ex_style: u32,
}

/// A window is tiled when it is visible, not known to be on another virtual
/// desktop, has no owner, is not cloaked, and is neither a child window nor
/// a tool window.
pub open spec fn manageable(f: WindowFacts) -> bool {
    &&& f.visible
    &&& f.on_current_desktop != Some(false)
    &&& !f.has_owner
    &&& f.cloaked == 0
    &&& f.style & WS_CHILD == 0
    &&& f.ex_style & WS_EX_TOOLWINDOW == 0
}

/// Whether a window other than the status bar is to be tiled.
pub fn is_manageable(facts: &WindowFacts) -> (r: bool)
    ensures
        r == manageable(*facts),
{
    if !facts.visible {
        return false;
    }
    let on_current = match facts.on_current_desktop {
        Some(b) => b,
        None => true,
    };
    if !on_current {
        return false;
    }
    if facts.has_owner {
        return false;
    }
    if facts.cloaked != 0 {
        return false;
    }
    if (facts.style & WS_CHILD) != 0 {
        return false;
    }
    if (facts.ex_style & WS_EX_TOOLWINDOW) != 0 {
        return false;
    }
    true
}

/// Whether a window, titled `title`, is to be tiled: the status bar never
/// is; any other window is when its facts say so.
pub fn is_tileable(title: &String, facts: &WindowFacts) -> (r: bool)
    ensures
        r == (title@ != bar_title() && manageable(*facts)),
{
    if is_bar_title(title) {
        return false;
    }
    is_manageable(facts)
}

/// Law: the tiling decision reads only the child bit of the style and only
/// the tool-window bit of the extended style: adding any other style bits
/// (maximized, minimized, caption, ...) or extended style bits changes
/// nothing.
pub proof fn law_other_style_bits_ignored(f: WindowFacts, b: u32, e: u32)
    requires
        b & 0x4000_0000 == 0,
        e & 0x80 == 0,
    ensures
        manageable(WindowFacts { style: f.style | b, ex_style: f.ex_style | e, ..f }) == manageable(f),
{
    let (st, ex) = (f.style, f.ex_style);
    assert((st | b) & 0x4000_0000 == 0 <==> st & 0x4000_0000 == 0) by (bit_vector)
        requires
            b & 0x4000_0000 == 0,
    ;
    assert((ex | e) & 0x80 == 0 <==> ex & 0x80 == 0) by (bit_vector)
        requires
            e & 0x80 == 0,
    ;
}

/// Law: a window is tiled exactly when it is visible, not known to be on
/// another virtual desktop, unowned, not cloaked, not a child window
/// (style bit `0x4000_0000`) and not a tool window (extended style bit
/// `0x80`), and its title is not the status bar's `"OrbitBar"`.
pub proof fn law_tiling_decision(title: Seq<char>, f: WindowFacts)
    ensures
        (title != "OrbitBar"@ && manageable(f)) <==> (title != "OrbitBar"@ && f.visible && f.on_current_desktop != Some(
            false,
        ) && !f.has_owner && f.cloaked == 0 && f.style & 0x4000_0000 == 0 && f.ex_style & 0x80 == 0),
{
}

/// Whether a window with this style is maximized or minimized, and so must
/// be restored before it can be placed.
pub fn needs_restore(style: u32) -> (r: bool)
    ensures
        r == (style & WS_MAXIMIZE != 0 || style & WS_MINIMIZE != 0),
{
    (style & WS_MAXIMIZE) != 0 || (style & WS_MINIMIZE) != 0
}

/// The larger of a size and `MIN_SIZE`.
pub open spec fn at_least_min(v: int) -> int {
    if v >= MIN_SIZE {
        v
    } else {
        MIN_SIZE as int
    }
}

/// The border widths between the window rectangle `raw` and its visible
/// frame `visible`: left, top, right, bottom.
pub open spec fn borders(visible: Rect, raw: Rect) -> (int, int, int, int) {
    (
        visible.left - raw.left,
        visible.top - raw.top,
        raw.right - visible.right,
        raw.bottom - visible.bottom,
    )
}

/// The window rectangle to ask for so that the visible frame lands on
/// `target`, each side at least `MIN_SIZE` long: grown by the borders when the
/// visible frame is known, else the target itself.
pub open spec fn spec_compensated(target: Frame, visible: Option<Rect>, raw: Rect) -> (int, int, int, int) {
    let w = at_least_min(target.w as int);
    let h = at_least_min(target.h as int);
    match visible {
        Some(v) => {
            let (bl, bt, br, bb) = borders(v, raw);
            (target.x - bl, target.y - bt, w + bl + br, h + bt + bb)
        },
        None => (target.x as int, target.y as int, w, h),
    }
}

/// Every value that the compensation forms in `i32` is representable.
pub open spec fn compensation_fits(target: Frame, visible: Option<Rect>, raw: Rect) -> bool {
    match visible {
        Some(v) => {
            let (bl, bt, br, bb) = borders(v, raw);
            let w = at_least_min(target.w as int);
            let h = at_least_min(target.h as int);
            &&& fits(bl) &&& fits(bt) &&& fits(br) &&& fits(bb)
            &&& fits(target.x - bl) &&& fits(target.y - bt)
            &&& fits(w + bl) &&& fits(w + bl + br)
            &&& fits(h + bt) &&& fits(h + bt + bb)
        },
        None => true,
    }
}

/// The window rectangle to ask for so that a window whose visible frame is
/// `visible` (when the compositor reports it) inside its window rectangle
/// `raw` shows on `target`, no side shorter than `MIN_SIZE`.
pub fn compensated_frame(target: Frame, visible: Option<Rect>, raw: Rect) -> (r: Frame)
    requires
        compensation_fits(target, visible, raw),
    ensures
        (r.x as int, r.y as int, r.w as int, r.h as int) == spec_compensated(target, visible, raw),
{
    let safe_w = if target.w >= MIN_SIZE { target.w } else { MIN_SIZE };
    let safe_h = if target.h >= MIN_SIZE { target.h } else { MIN_SIZE };
    match visible {
        Some(v) => {
            let border_left = v.left - raw.left;
            let border_top = v.top - raw.top;
            let border_right = raw.right - v.right;
            let border_bottom = raw.bottom - v.bottom;
            Frame {
                x: target.x - border_left,
                y: target.y - border_top,
                w: safe_w + border_left + border_right,
                h: safe_h + border_top + border_bottom,
            }
        },
        None => Frame { x: target.x, y: target.y, w: safe_w, h: safe_h },
    }
}

/// Tells whether every value that `compensated_frame` forms is representable
/// as an `i32`; it may be called exactly when it does.
pub fn check_compensation_fits(target: Frame, visible: Option<Rect>, raw: Rect) -> (r: bool)
    ensures
        r == compensation_fits(target, visible, raw),
{
    match visible {
        Some(v) => {
            let bl = v.left as i64 - raw.left as i64;
            let bt = v.top as i64 - raw.top as i64;
            let br = raw.right as i64 - v.right as i64;
            let bb = raw.bottom as i64 - v.bottom as i64;
            let w = if target.w >= MIN_SIZE { target.w as i64 } else { MIN_SIZE as i64 };
            let h = if target.h >= MIN_SIZE { target.h as i64 } else { MIN_SIZE as i64 };
            fits_i32(bl) && fits_i32(bt) && fits_i32(br) && fits_i32(bb) && fits_i32(target.x as i64 - bl) && fits_i32(
                target.y as i64 - bt,
            ) && fits_i32(w + bl) && fits_i32(w + bl + br) && fits_i32(h + bt) && fits_i32(h + bt + bb)
        },
        None => true,
    }
}

/// Law: when the borders stay as they were, the visible frame of the moved
/// window is the target, each side at least `MIN_SIZE` long.
pub proof fn law_compensation_lands_on_target(target: Frame, visible: Rect, raw: Rect)
    ensures
        ({
            let (x, y, w, h) = spec_compensated(target, Some(visible), raw);
            let (bl, bt, br, bb) = borders(visible, raw);
            &&& x + bl == target.x
            &&& y + bt == target.y
            &&& (x + w - br) - (x + bl) == at_least_min(target.w as int)
            &&& (y + h - bb) - (y + bt) == at_least_min(target.h as int)
            &&& at_least_min(target.w as int) >= MIN_SIZE
            &&& at_least_min(target.h as int) >= MIN_SIZE
        }),
{
}

/// Law: the window rectangle asked for puts the visible frame on the target.
/// The left and top borders (visible frame edge less window edge) and the
/// right and bottom borders (window edge less visible frame edge) are taken
/// from the window as it stands; moved by the compensation, the visible
/// frame starts at the target's corner and is as wide and tall as the target,
/// or 10 pixels where the target is smaller. Without a known visible frame
/// the target itself, raised to 10 pixels, is asked for.
pub proof fn law_compensation_explicit(target: Frame, visible: Option<Rect>, raw: Rect)
    ensures
        ({
            let (x, y, w, h) = spec_compensated(target, visible, raw);
            let want_w = if target.w >= 10 { target.w as int } else { 10 };
            let want_h = if target.h >= 10 { target.h as int } else { 10 };
            &&& visible matches Some(v) ==> {
                &&& x + (v.left - raw.left) == target.x
                &&& y + (v.top - raw.top) == target.y
                &&& (x + w - (raw.right - v.right)) - (x + (v.left - raw.left)) == want_w
                &&& (y + h - (raw.bottom - v.bottom)) - (y + (v.top - raw.top)) == want_h
            }
            &&& visible is None ==> x == target.x && y == target.y && w == want_w && h == want_h
        }),
{
}

/// Law: the style bits, sizes and the bar height are Win32's and the
/// window manager's: child `0x4000_0000`, maximized `0x0100_0000`, minimized
/// `0x2000_0000`, tool window `0x80`; the bar is 36 pixels tall and no window
/// side is made shorter than 10 pixels.
pub proof fn law_window_constants()
    ensures
        WS_CHILD == 0x4000_0000,
        WS_MAXIMIZE == 0x0100_0000,
        WS_MINIMIZE == 0x2000_0000,
        WS_EX_TOOLWINDOW == 0x80,
        BAR_HEIGHT == 36,
        MIN_SIZE == 10,
{
}

/// The extended style given to the status bar: its own with the tool-window
/// bit set, so that it has no taskbar button.
pub fn bar_ex_style(ex_style: u32) -> (r: u32)
    ensures
        r == ex_style | WS_EX_TOOLWINDOW,
{
    ex_style | WS_EX_TOOLWINDOW
}

/// The work area to set so that maximized windows stay clear of the status
/// bar: the work area with its top edge at `BAR_HEIGHT` when it is above
/// that, else `None` (nothing to change).
pub fn bar_work_area(work_area: Rect) -> (r: Option<Rect>)
    ensures
        work_area.top < BAR_HEIGHT ==> r == Some(Rect { top: BAR_HEIGHT, ..work_area }),
        work_area.top >= BAR_HEIGHT ==> r is None,
{
    if work_area.top < BAR_HEIGHT {
        Some(Rect { top: BAR_HEIGHT, ..work_area })
    } else {
        None
    }
}

/// Whether the status bar must be restored: it is minimized or not visible.
pub fn bar_needs_restore(style: u32, visible: bool) -> (r: bool)
    ensures
        r == (style & WS_MINIMIZE != 0 || !visible),
{
    (style & WS_MINIMIZE) != 0 || !visible
}

/// Whether the status bar is to be set up now, on seeing a window titled
/// `title`: only for the bar, and only the first time; the flag
/// `registered` records that it was.
pub fn bar_setup_due(registered: &mut bool, title: &String) -> (due: bool)
    ensures
        title@ == bar_title() ==> due == !*old(registered) && *final(registered),
        title@ != bar_title() ==> !due && *final(registered) == *old(registered),
{
    if is_bar_title(title) {
        let due = !*registered;
        *registered = true;
        due
    } else {
        false
    }
}

/// One call of `bar_setup_due`, as its contract describes it: with the flag
/// `before`, on a window titled `title`, answering `due` and leaving the
/// flag `after`.
pub open spec fn bar_setup_step(before: bool, title: Seq<char>, due: bool, after: bool) -> bool {
    &&& title == bar_title() ==> due == !before && after
    &&& title != bar_title() ==> !due && after == before
}

/// Once set, the flag stays set along a run of calls.
proof fn lemma_bar_flag_stays(flags: Seq<bool>, titles: Seq<Seq<char>>, dues: Seq<bool>, i: int, k: int)
    requires
        flags.len() == dues.len() + 1,
        titles.len() == dues.len(),
        forall|j: int| 0 <= j < dues.len() ==> #[trigger] bar_setup_step(flags[j], titles[j], dues[j], flags[j + 1]),
        0 <= i < dues.len(),
        dues[i],
        i < k <= dues.len(),
    ensures
        flags[k],
    decreases k - i,
{
    let j = k - 1;
    assert(bar_setup_step(flags[j], titles[j], dues[j], flags[j + 1]));
    if k - 1 > i {
        lemma_bar_flag_stays(flags, titles, dues, i, k - 1);
    }
}

/// Law: along any run of calls of `bar_setup_due`, on any windows, the status
/// bar is set up at most once, on a window titled as the bar, and only if
/// the flag was clear then.
pub proof fn law_bar_set_up_at_most_once(flags: Seq<bool>, titles: Seq<Seq<char>>, dues: Seq<bool>)
    requires
        flags.len() == dues.len() + 1,
        titles.len() == dues.len(),
        forall|j: int| 0 <= j < dues.len() ==> #[trigger] bar_setup_step(flags[j], titles[j], dues[j], flags[j + 1]),
    ensures
        forall|i: int| 0 <= i < dues.len() && #[trigger] dues[i] ==> titles[i] == bar_title() && !flags[i],
        forall|i: int, j: int| 0 <= i < j < dues.len() ==> !(#[trigger] dues[i] && #[trigger] dues[j]),
{
    assert forall|i: int| 0 <= i < dues.len() && #[trigger] dues[i] implies titles[i] == bar_title() && !flags[i] by {
        assert(bar_setup_step(flags[i], titles[i], dues[i], flags[i + 1]));
    }
    assert forall|i: int, j: int| 0 <= i < j < dues.len() implies !(#[trigger] dues[i] && #[trigger] dues[j]) by {
        if dues[i] && dues[j] {
            lemma_bar_flag_stays(flags, titles, dues, i, j);
            assert(bar_setup_step(flags[j], titles[j], dues[j], flags[j + 1]));
        }
    }
}

} // verus!
