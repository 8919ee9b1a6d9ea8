//! The tiling layouts: one window alone, the recursive dwindle layout and the
//! master-stack layout.
use vstd::prelude::*;
use crate::config::{is_dwindle, names_dwindle, LayoutConfig};
use crate::workspace::{keep_alive, Workspace};
use crate::geometry::{fits, fits_i32, lemma_tiles_of_push, lemma_trunc_div, tile, tiles_of, trunc_div, Frame, Rect, Tile};

verus! {

/// Half of `v`, rounded toward zero.
pub open spec fn half(v: int) -> int {
    trunc_div(v, 2)
}

/// The part of `r` that the first of several dwindle windows takes: half of
/// the region less the gap, rounded toward zero, along the longer side (side
/// by side when the region is wider than tall).
pub open spec fn dwindle_first(r: Tile, gap: int) -> Tile {
    if r.w > r.h {
        tile(r.x, r.y, half(r.w - gap), r.h)
    } else {
        tile(r.x, r.y, r.w, half(r.h - gap))
    }
}

/// The region left to the following windows: past the first window and the gap.
pub open spec fn dwindle_rest(r: Tile, gap: int) -> Tile {
    if r.w > r.h {
        let ww = half(r.w - gap);
        tile(r.x + (ww + gap), r.y, r.w - (ww + gap), r.h)
    } else {
        let hh = half(r.h - gap);
        tile(r.x, r.y + (hh + gap), r.w, r.h - (hh + gap))
    }
}

/// The dwindle layout of `k` windows in the region `r`: each window but the
/// last takes `dwindle_first` of the region left to it, and the last window
/// takes the whole region left to it.
pub open spec fn dwindle_tiles(r: Tile, gap: int, k: nat) -> Seq<Tile>
    decreases k,
{
    if k == 0 {
        Seq::empty()
    } else if k == 1 {
        seq![r]
    } else {
        seq![dwindle_first(r, gap)] + dwindle_tiles(dwindle_rest(r, gap), gap, (k - 1) as nat)
    }
}

/// Every value that the dwindle computation forms in `i32` is representable.
pub open spec fn dwindle_fits(r: Tile, gap: int, k: nat) -> bool
    decreases k,
{
    if k <= 1 {
        true
    } else if r.w > r.h {
        let ww = half(r.w - gap);
        &&& fits(r.w - gap)
        &&& fits(ww + gap)
        &&& fits(r.x + (ww + gap))
        &&& fits(r.w - (ww + gap))
        &&& dwindle_fits(dwindle_rest(r, gap), gap, (k - 1) as nat)
    } else {
        let hh = half(r.h - gap);
        &&& fits(r.h - gap)
        &&& fits(hh + gap)
        &&& fits(r.y + (hh + gap))
        &&& fits(r.h - (hh + gap))
        &&& dwindle_fits(dwindle_rest(r, gap), gap, (k - 1) as nat)
    }
}

/// The number of windows a signed count stands for.
pub open spec fn count_of(n: i32) -> nat {
    if n > 0 {
        n as nat
    } else {
        0
    }
}

/// Places `n` windows in the region `(x, y, w, h)` by the dwindle layout.
pub fn dwindle_frames(x: i32, y: i32, w: i32, h: i32, gap: i32, n: i32) -> (out: Vec<Frame>)
    requires
        dwindle_fits(tile(x as int, y as int, w as int, h as int), gap as int, count_of(n)),
    ensures
        tiles_of(out@) == dwindle_tiles(tile(x as int, y as int, w as int, h as int), gap as int, count_of(n)),
{
    let mut out: Vec<Frame> = Vec::new();
    let mut cx = x;
    let mut cy = y;
    let mut cw = w;
    let mut ch = h;
    let mut i: i32 = 0;
    if n <= 0 {
        return out;
    }
    while i < n
        invariant
            0 <= i <= n,
            tiles_of(out@) + dwindle_tiles(tile(cx as int, cy as int, cw as int, ch as int), gap as int, (n - i) as nat)
                == dwindle_tiles(tile(x as int, y as int, w as int, h as int), gap as int, count_of(n)),
            dwindle_fits(tile(cx as int, cy as int, cw as int, ch as int), gap as int, (n - i) as nat),
        decreases n - i,
    {
        let ghost old_out = out@;
        let ghost before = tiles_of(out@);
        let ghost rest = dwindle_tiles(tile(cx as int, cy as int, cw as int, ch as int), gap as int, (n - i) as nat);
        let is_last = i == n - 1;
        let split_vertically = cw > ch;
        let (win_w, win_h) = if is_last {
            (cw, ch)
        } else if split_vertically {
            ((cw - gap) / 2, ch)
        } else {
            (cw, (ch - gap) / 2)
        };
        let f = Frame { x: cx, y: cy, w: win_w, h: win_h };
        out.push(f);
        proof {
            lemma_tiles_of_push(old_out, f);
        }
        if !is_last {
            if split_vertically {
                cx = cx + (win_w + gap);
                cw = cw - (win_w + gap);
            } else {
                cy = cy + (win_h + gap);
                ch = ch - (win_h + gap);
            }
        }
        i = i + 1;
        proof {
            let next = dwindle_tiles(tile(cx as int, cy as int, cw as int, ch as int), gap as int, (n - i) as nat);
            assert(rest == seq![f@] + next);
            assert(tiles_of(out@) + next =~= before + rest);
        }
    }
    out
}

/// The number of dwindle tiles is the number of windows.
pub proof fn lemma_dwindle_len(r: Tile, gap: int, k: nat)
    ensures
        dwindle_tiles(r, gap, k).len() == k,
    decreases k,
{
    if k >= 2 {
        lemma_dwindle_len(dwindle_rest(r, gap), gap, (k - 1) as nat);
    }
}

/// One dwindle split: the window placed first lies in the region, and what is
/// left for the following windows lies in the region and misses that window.
proof fn lemma_dwindle_split(r: Tile, gap: int, px: int, py: int)
    requires
        gap >= 0,
    ensures
        dwindle_first(r, gap).covers(px, py) ==> r.covers(px, py),
        dwindle_rest(r, gap).covers(px, py) ==> r.covers(px, py) && !dwindle_first(r, gap).covers(px, py),
{
}

/// Every pixel of a dwindle tile lies in the region being tiled.
proof fn lemma_dwindle_within(r: Tile, gap: int, k: nat, i: int, px: int, py: int)
    requires
        gap >= 0,
        0 <= i < k,
        dwindle_tiles(r, gap, k)[i].covers(px, py),
    ensures
        r.covers(px, py),
    decreases k,
{
    lemma_dwindle_split(r, gap, px, py);
    if k >= 2 && i >= 1 {
        lemma_dwindle_len(dwindle_rest(r, gap), gap, (k - 1) as nat);
        lemma_dwindle_within(dwindle_rest(r, gap), gap, (k - 1) as nat, i - 1, px, py);
    }
}

/// No pixel lies in two different dwindle tiles.
proof fn lemma_dwindle_disjoint(r: Tile, gap: int, k: nat, i: int, j: int, px: int, py: int)
    requires
        gap >= 0,
        0 <= i < j < k,
    ensures
        !(dwindle_tiles(r, gap, k)[i].covers(px, py) && dwindle_tiles(r, gap, k)[j].covers(px, py)),
    decreases k,
{
    let rest = dwindle_rest(r, gap);
    lemma_dwindle_split(r, gap, px, py);
    lemma_dwindle_len(rest, gap, (k - 1) as nat);
    if i == 0 {
        if dwindle_tiles(rest, gap, (k - 1) as nat)[j - 1].covers(px, py) {
            lemma_dwindle_within(rest, gap, (k - 1) as nat, j - 1, px, py);
        }
    } else {
        lemma_dwindle_disjoint(rest, gap, (k - 1) as nat, i - 1, j - 1, px, py);
    }
}

/// The height of each stack window: the region height less one gap per
/// window, shared among the `n - 1` stack windows, rounded toward zero.
pub open spec fn stack_height(h: int, gap: int, n: int) -> int {
    trunc_div(h - gap * n, n - 1)
}

/// The master window: the left column, `fm` pixels wide, inset by the gap.
pub open spec fn master_tile(l: int, t: int, h: int, gap: int, fm: int) -> Tile {
    tile(l + gap, t + gap, fm, h - gap * 2)
}

/// The top edge of stack window `i` (counted from 1).
pub open spec fn stack_top(t: int, gap: int, sh: int, i: int) -> int {
    t + gap + (i - 1) * (sh + gap)
}

/// Stack window `i` (counted from 1): right of the master column past the gap,
/// filling the rest of the width, windows stacked top to bottom a gap apart.
pub open spec fn stack_tile(l: int, t: int, w: int, h: int, gap: int, n: int, fm: int, i: int) -> Tile {
    let sh = stack_height(h, gap, n);
    tile(l + gap + fm + gap, stack_top(t, gap, sh, i), w - fm - gap * 3, sh)
}

/// The master-stack layout of `n` windows in the region with left edge `l`,
/// top edge `t`, width `w` and height `h`, the master column `fm` pixels wide.
pub open spec fn master_stack_tiles(l: int, t: int, w: int, h: int, gap: int, n: int, fm: int) -> Seq<Tile> {
    seq![master_tile(l, t, h, gap, fm)] + Seq::new(
        if n >= 2 { (n - 1) as nat } else { 0 },
        |k: int| stack_tile(l, t, w, h, gap, n, fm, k + 1),
    )
}

/// The values formed for stack window `i` are representable.
pub open spec fn stack_row_fits(t: int, gap: int, sh: int, i: int) -> bool {
    &&& fits(sh + gap)
    &&& fits((i - 1) * (sh + gap))
    &&& fits(stack_top(t, gap, sh, i))
}

/// Every value that the master-stack computation forms in `i32` is representable.
pub open spec fn master_stack_fits(l: int, t: int, w: int, h: int, gap: int, n: int, fm: int) -> bool {
    &&& fits(l + gap)
    &&& fits(t + gap)
    &&& fits(gap * 2)
    &&& fits(h - gap * 2)
    &&& fits(l + gap + fm)
    &&& fits(l + gap + fm + gap)
    &&& fits(w - fm)
    &&& fits(gap * 3)
    &&& fits(w - fm - gap * 3)
    &&& fits(gap * n)
    &&& fits(h - gap * n)
    &&& fits(n - 1)
    &&& n != 1
    &&& fits(stack_height(h, gap, n))
    &&& forall|i: int| 1 <= i < n ==> #[trigger] stack_row_fits(t, gap, stack_height(h, gap, n), i)
}

/// Places `n` windows by the master-stack layout: the first window in the
/// master column `fm` pixels wide, the others stacked to its right.
pub fn master_stack_frames(l: i32, t: i32, w: i32, h: i32, gap: i32, n: i32, fm: i32) -> (out: Vec<Frame>)
    requires
        master_stack_fits(l as int, t as int, w as int, h as int, gap as int, n as int, fm as int),
    ensures
        tiles_of(out@) == master_stack_tiles(l as int, t as int, w as int, h as int, gap as int, n as int, fm as int),
{
    let ghost spec_tiles = master_stack_tiles(l as int, t as int, w as int, h as int, gap as int, n as int, fm as int);
    let mut out: Vec<Frame> = Vec::new();
    let master = Frame { x: l + gap, y: t + gap, w: fm, h: h - (gap * 2) };
    out.push(master);
    proof {
        lemma_tiles_of_push(Seq::empty(), master);
        assert(Seq::<Frame>::empty().push(master) =~= out@);
    }
    let stack_x = l + gap + fm + gap;
    let stack_w = w - fm - (gap * 3);
    let num = h - (gap * n);
    proof {
        lemma_trunc_div(num as int, n - 1);
        if n == 0 && num == i32::MIN {
            assert(0x8000_0000int / 1int == 0x8000_0000int);
            assert(stack_height(h as int, gap as int, n as int) == 0x8000_0000);
        }
    }
    let stack_h = num / (n - 1);
    if n < 2 {
        assert(tiles_of(out@) =~= spec_tiles);
        return out;
    }
    let mut i: i32 = 1;
    while i < n
        invariant
            1 <= i <= n,
            stack_h == stack_height(h as int, gap as int, n as int),
            stack_x == l + gap + fm + gap,
            stack_w == w - fm - gap * 3,
            master_stack_fits(l as int, t as int, w as int, h as int, gap as int, n as int, fm as int),
            spec_tiles == master_stack_tiles(l as int, t as int, w as int, h as int, gap as int, n as int, fm as int),
            tiles_of(out@) == spec_tiles.subrange(0, i as int),
        decreases n - i,
    {
        assert(stack_row_fits(t as int, gap as int, stack_h as int, i as int));
        let stack_y = t + gap + (i - 1) * (stack_h + gap);
        let f = Frame { x: stack_x, y: stack_y, w: stack_w, h: stack_h };
        let ghost old_out = out@;
        out.push(f);
        proof {
            lemma_tiles_of_push(old_out, f);
            assert(spec_tiles[i as int] == stack_tile(l as int, t as int, w as int, h as int, gap as int, n as int, fm as int, i as int));
            assert(spec_tiles.subrange(0, i + 1) =~= spec_tiles.subrange(0, i as int).push(f@));
        }
        i = i + 1;
    }
    assert(spec_tiles.subrange(0, n as int) =~= spec_tiles);
    out
}

/// Pixels kept free at the top of the work area for the status bar.
pub const BAR_RESERVE: i32 = 34;

/// The area that windows are tiled in: the work area with its top edge moved
/// down by `BAR_RESERVE` pixels.
pub fn tiling_area(work_area: Rect) -> (r: Rect)
    requires
        fits(work_area.top + BAR_RESERVE),
    ensures
        r.left == work_area.left,
        r.right == work_area.right,
        r.bottom == work_area.bottom,
        r.top == work_area.top + BAR_RESERVE,
{
    Rect { top: work_area.top + BAR_RESERVE, ..work_area }
}

/// The width of the master column, worked out by the caller from the
/// configured fraction of the screen width: `width` is that fraction of the
/// tiling area's width and `margin` is one and a half gaps, both rounded
/// toward zero; the master window is `width - margin` pixels wide.
#[derive(Clone, Copy, Debug, PartialEq, Eq, Structural)]
pub struct MasterSplit {
    pub width: i32,
    pub margin: i32,
}

/// The region that a lone window, or the dwindle layout, fills: the area
/// inset by the gap on every side.
pub open spec fn inner_region(area: Rect, gap: int) -> Tile {
    tile(area.left + gap, area.top + gap, area.spec_width() - gap * 2, area.spec_height() - gap * 2)
}

/// The placement of `n` windows in the tiling area: none for no window, the
/// inner region for one window, else the dwindle layout of the inner region
/// or the master-stack layout of the area, the master column `fm` wide.
pub open spec fn layout_tiles(n: int, area: Rect, gap: int, dwindle: bool, fm: int) -> Seq<Tile> {
    if n == 0 {
        Seq::empty()
    } else if n == 1 {
        seq![inner_region(area, gap)]
    } else if dwindle {
        dwindle_tiles(inner_region(area, gap), gap, if n > 0 { n as nat } else { 0 })
    } else {
        master_stack_tiles(area.left as int, area.top as int, area.spec_width(), area.spec_height(), gap, n, fm)
    }
}

/// Every value that placing `n` windows forms in `i32` is representable.
pub open spec fn layout_fits(n: int, area: Rect, gap: int, dwindle: bool, split: MasterSplit) -> bool {
    let w = area.spec_width();
    let h = area.spec_height();
    &&& fits(w)
    &&& fits(h)
    &&& n != 0 ==> {
        &&& n == 1 || dwindle ==> {
            &&& fits(area.left + gap)
            &&& fits(area.top + gap)
            &&& fits(gap * 2)
            &&& fits(w - gap * 2)
            &&& fits(h - gap * 2)
        }
        &&& n != 1 && dwindle ==> dwindle_fits(inner_region(area, gap), gap, if n > 0 { n as nat } else { 0 })
        &&& n != 1 && !dwindle ==> {
            &&& fits(split.width - split.margin)
            &&& master_stack_fits(area.left as int, area.top as int, w, h, gap, n, split.width - split.margin)
        }
    }
}

/// Places `n` windows, in workspace order, in the tiling area `area` as the
/// layout settings say: one window fills the area less the gap; several are
/// placed by the dwindle layout when the layout is named `"dwindle"`, else
/// by the master-stack layout with the master column given by `split`.
pub fn plan_layout(n: i32, area: Rect, config: &LayoutConfig, split: MasterSplit) -> (out: Vec<Frame>)
    requires
        layout_fits(n as int, area, config.gap_size as int, names_dwindle(config.layout_type), split),
    ensures
        tiles_of(out@) == layout_tiles(
            n as int,
            area,
            config.gap_size as int,
            names_dwindle(config.layout_type),
            split.width - split.margin,
        ),
{
    let width = area.width();
    let height = area.height();
    if n == 0 {
        let out: Vec<Frame> = Vec::new();
        assert(tiles_of(out@) =~= Seq::<Tile>::empty());
        return out;
    }
    let gap = config.gap_size;
    let dwindle = is_dwindle(&config.layout_type);
    if n == 1 {
        let f = Frame { x: area.left + gap, y: area.top + gap, w: width - (gap * 2), h: height - (gap * 2) };
        let mut out: Vec<Frame> = Vec::new();
        out.push(f);
        proof {
            lemma_tiles_of_push(Seq::empty(), f);
            assert(Seq::<Frame>::empty().push(f) =~= out@);
            assert(tiles_of(out@) =~= seq![f@]);
        }
        out
    } else if dwindle {
        dwindle_frames(area.left + gap, area.top + gap, width - (gap * 2), height - (gap * 2), gap, n)
    } else {
        let final_master_w = split.width - split.margin;
        master_stack_frames(area.left, area.top, width, height, gap, n, final_master_w)
    }
}

/// The stack height, when positive, leaves room for all stack windows and
/// their gaps: `(n - 1) * sh <= h - gap * n`.
proof fn lemma_stack_height_bound(h: int, gap: int, n: int)
    requires
        n >= 2,
        stack_height(h, gap, n) > 0,
    ensures
        (n - 1) * stack_height(h, gap, n) <= h - gap * n,
{
    let a = h - gap * n;
    let d = n - 1;
    lemma_trunc_div(a, d);
    if a < 0 {
        assert((-a) / d >= 0) by (nonlinear_arith)
            requires
                -a > 0,
                d > 0,
        ;
    }
    assert(d * (a / d) <= a) by (nonlinear_arith)
        requires
            a >= 0,
            d > 0,
    {
        assert(a == d * (a / d) + a % d);
    }
}

/// Stack window `i` lies in the area inset by the gap when the master column
/// is at least `-gap` wide.
proof fn lemma_stack_within(l: int, t: int, w: int, h: int, gap: int, n: int, fm: int, i: int, px: int, py: int)
    requires
        gap >= 0,
        fm >= -gap,
        n >= 2,
        1 <= i < n,
        stack_tile(l, t, w, h, gap, n, fm, i).covers(px, py),
    ensures
        tile(l + gap, t + gap, w - gap * 2, h - gap * 2).covers(px, py),
{
    let sh = stack_height(h, gap, n);
    lemma_stack_height_bound(h, gap, n);
    let s = sh + gap;
    assert((i - 1) * s >= 0) by (nonlinear_arith)
        requires
            i >= 1,
            s >= 0,
    ;
    assert((i - 1) * s + sh <= (n - 1) * sh + (n - 2) * gap) by (nonlinear_arith)
        requires
            1 <= i < n,
            s == sh + gap,
            sh >= 0,
            gap >= 0,
    {
        assert((i - 1) * s <= (n - 2) * s);
    }
    assert((n - 2) * gap == gap * n - gap * 2) by (nonlinear_arith);
}

/// Two different stack windows share no pixel.
proof fn lemma_stacks_disjoint(l: int, t: int, w: int, h: int, gap: int, n: int, fm: int, i: int, j: int, px: int, py: int)
    requires
        gap >= 0,
        1 <= i < j,
    ensures
        !(stack_tile(l, t, w, h, gap, n, fm, i).covers(px, py) && stack_tile(l, t, w, h, gap, n, fm, j).covers(px, py)),
{
    let sh = stack_height(h, gap, n);
    let s = sh + gap;
    if sh > 0 {
        assert((j - 1) * s - (i - 1) * s >= s) by (nonlinear_arith)
            requires
                1 <= i < j,
                s >= 0,
        {
            assert((j - 1) * s - (i - 1) * s == (j - i) * s);
        }
    }
}

/// Every pixel of a master-stack tile lies in the area inset by the gap, when
/// the master column fits: `-gap <= fm <= w - 2 * gap`.
proof fn lemma_master_stack_within(l: int, t: int, w: int, h: int, gap: int, n: int, fm: int, i: int, px: int, py: int)
    requires
        gap >= 0,
        -gap <= fm <= w - gap * 2,
        0 <= i < master_stack_tiles(l, t, w, h, gap, n, fm).len(),
        master_stack_tiles(l, t, w, h, gap, n, fm)[i].covers(px, py),
    ensures
        tile(l + gap, t + gap, w - gap * 2, h - gap * 2).covers(px, py),
{
    if i >= 1 {
        assert(master_stack_tiles(l, t, w, h, gap, n, fm)[i] == stack_tile(l, t, w, h, gap, n, fm, i));
        lemma_stack_within(l, t, w, h, gap, n, fm, i, px, py);
    }
}

/// No pixel lies in two different master-stack tiles.
proof fn lemma_master_stack_disjoint(l: int, t: int, w: int, h: int, gap: int, n: int, fm: int, i: int, j: int, px: int, py: int)
    requires
        gap >= 0,
        0 <= i < j < master_stack_tiles(l, t, w, h, gap, n, fm).len(),
    ensures
        !(master_stack_tiles(l, t, w, h, gap, n, fm)[i].covers(px, py)
            && master_stack_tiles(l, t, w, h, gap, n, fm)[j].covers(px, py)),
{
    let ts = master_stack_tiles(l, t, w, h, gap, n, fm);
    assert(ts[j] == stack_tile(l, t, w, h, gap, n, fm, j));
    if i >= 1 {
        assert(ts[i] == stack_tile(l, t, w, h, gap, n, fm, i));
        lemma_stacks_disjoint(l, t, w, h, gap, n, fm, i, j, px, py);
    }
}

/// Law: placing `n` windows gives one tile per window.
pub proof fn law_layout_one_tile_per_window(n: int, area: Rect, gap: int, dwindle: bool, fm: int)
    requires
        n >= 0,
    ensures
        layout_tiles(n, area, gap, dwindle, fm).len() == n,
{
    if n >= 2 && dwindle {
        lemma_dwindle_len(inner_region(area, gap), gap, n as nat);
    }
}

/// Law: with a gap that is not negative, no pixel is covered by two windows.
pub proof fn law_layout_disjoint(n: int, area: Rect, gap: int, dwindle: bool, fm: int)
    requires
        gap >= 0,
    ensures
        forall|i: int, j: int, px: int, py: int|
            0 <= i < j < layout_tiles(n, area, gap, dwindle, fm).len() ==> !(
            #[trigger] layout_tiles(n, area, gap, dwindle, fm)[i].covers(px, py)
                && #[trigger] layout_tiles(n, area, gap, dwindle, fm)[j].covers(px, py)),
{
    let ts = layout_tiles(n, area, gap, dwindle, fm);
    assert forall|i: int, j: int, px: int, py: int| 0 <= i < j < ts.len() implies !(
        #[trigger] ts[i].covers(px, py) && #[trigger] ts[j].covers(px, py)) by {
        if n >= 2 && dwindle {
            lemma_dwindle_len(inner_region(area, gap), gap, n as nat);
            lemma_dwindle_disjoint(inner_region(area, gap), gap, n as nat, i, j, px, py);
        } else if n != 1 && n != 0 && !dwindle {
            lemma_master_stack_disjoint(area.left as int, area.top as int, area.spec_width(), area.spec_height(), gap, n, fm, i, j, px, py);
        } else if n < 0 && dwindle {
            lemma_dwindle_len(inner_region(area, gap), gap, 0);
        }
    }
}

/// Law: with a gap that is not negative, every window lies in the tiling area
/// inset by the gap on every side, provided that, in the master-stack layout,
/// the master column is between `-gap` and the inset width wide.
pub proof fn law_layout_within_inner_region(n: int, area: Rect, gap: int, dwindle: bool, fm: int)
    requires
        gap >= 0,
        !dwindle && n != 0 && n != 1 ==> -gap <= fm <= area.spec_width() - gap * 2,
    ensures
        forall|i: int, px: int, py: int|
            0 <= i < layout_tiles(n, area, gap, dwindle, fm).len()
                && #[trigger] layout_tiles(n, area, gap, dwindle, fm)[i].covers(px, py)
                ==> inner_region(area, gap).covers(px, py),
{
    let ts = layout_tiles(n, area, gap, dwindle, fm);
    assert forall|i: int, px: int, py: int| 0 <= i < ts.len() && #[trigger] ts[i].covers(px, py) implies inner_region(
        area,
        gap,
    ).covers(px, py) by {
        if n >= 2 && dwindle {
            lemma_dwindle_len(inner_region(area, gap), gap, n as nat);
            lemma_dwindle_within(inner_region(area, gap), gap, n as nat, i, px, py);
        } else if n != 0 && n != 1 && !dwindle {
            lemma_master_stack_within(area.left as int, area.top as int, area.spec_width(), area.spec_height(), gap, n, fm, i, px, py);
        } else if n < 0 && dwindle {
            lemma_dwindle_len(inner_region(area, gap), gap, 0);
        }
    }
}

/// Tells whether every value that the dwindle layout of `n` windows in the
/// region `(x, y, w, h)` forms is representable as an `i32`.
pub fn check_dwindle_fits(x: i32, y: i32, w: i32, h: i32, gap: i32, n: i32) -> (r: bool)
    ensures
        r == dwindle_fits(tile(x as int, y as int, w as int, h as int), gap as int, count_of(n)),
{
    let mut cx = x;
    let mut cy = y;
    let mut cw = w;
    let mut ch = h;
    let mut rem: i32 = if n > 0 { n } else { 0 };
    let g = gap as i64;
    while rem > 1
        invariant
            0 <= rem,
            g == gap,
            dwindle_fits(tile(x as int, y as int, w as int, h as int), gap as int, count_of(n))
                == dwindle_fits(tile(cx as int, cy as int, cw as int, ch as int), gap as int, rem as nat),
        decreases rem,
    {
        if cw > ch {
            let a = cw as i64 - g;
            if !fits_i32(a) {
                return false;
            }
            let ww = a / 2;
            let step = ww + g;
            if !fits_i32(step) || !fits_i32(cx as i64 + step) || !fits_i32(cw as i64 - step) {
                return false;
            }
            cx = (cx as i64 + step) as i32;
            cw = (cw as i64 - step) as i32;
        } else {
            let a = ch as i64 - g;
            if !fits_i32(a) {
                return false;
            }
            let hh = a / 2;
            let step = hh + g;
            if !fits_i32(step) || !fits_i32(cy as i64 + step) || !fits_i32(ch as i64 - step) {
                return false;
            }
            cy = (cy as i64 + step) as i32;
            ch = (ch as i64 - step) as i32;
        }
        rem = rem - 1;
    }
    true
}

/// Tells whether every value that the master-stack layout forms is
/// representable as an `i32`.
pub fn check_master_stack_fits(l: i32, t: i32, w: i32, h: i32, gap: i32, n: i32, fm: i32) -> (r: bool)
    ensures
        r == master_stack_fits(l as int, t as int, w as int, h as int, gap as int, n as int, fm as int),
{
    let (l64, t64, w64, h64, g, n64, fm64) = (l as i64, t as i64, w as i64, h as i64, gap as i64, n as i64, fm as i64);
    assert(-0x4000_0000_0000_0000 <= g * n64 <= 0x4000_0000_0000_0000) by (nonlinear_arith)
        requires
            -0x8000_0000 <= g <= 0x7fff_ffff,
            -0x8000_0000 <= n64 <= 0x7fff_ffff,
    ;
    if !(fits_i32(l64 + g) && fits_i32(t64 + g) && fits_i32(g * 2) && fits_i32(h64 - g * 2) && fits_i32(l64 + g + fm64) && fits_i32(
        l64 + g + fm64 + g,
    ) && fits_i32(w64 - fm64) && fits_i32(g * 3) && fits_i32(w64 - fm64 - g * 3) && fits_i32(g * n64) && fits_i32(h64 - g * n64)
        && fits_i32(n64 - 1) && n64 != 1) {
        return false;
    }
    let num = h64 - g * n64;
    proof {
        lemma_trunc_div(num as int, n64 - 1);
    }
    let sh = num / (n64 - 1);
    if !fits_i32(sh) {
        return false;
    }
    assert(sh == stack_height(h as int, gap as int, n as int));
    let mut i: i64 = 1;
    while i < n64
        invariant
            1 <= i,
            n64 < 0x8000_0000,
            sh == stack_height(h as int, gap as int, n as int),
            fits(sh as int),
            fits(g as int),
            fits(t as int),
            t64 == t,
            g == gap,
            n64 == n,
            forall|k: int| 1 <= k < i ==> #[trigger] stack_row_fits(t as int, gap as int, sh as int, k),
        decreases n64 - i,
    {
        let s = sh + g;
        if !fits_i32(s) {
            assert(!stack_row_fits(t as int, gap as int, sh as int, i as int));
            return false;
        }
        assert(0 <= i - 1 < 0x8000_0000);
        assert(-0x4000_0000_0000_0000 <= (i - 1) * s <= 0x4000_0000_0000_0000) by (nonlinear_arith)
            requires
                0 <= i - 1 < 0x8000_0000,
                -0x8000_0000 <= s <= 0x7fff_ffff,
        ;
        let p = (i - 1) * s;
        if !fits_i32(p) || !fits_i32(t64 + g + p) {
            assert(!stack_row_fits(t as int, gap as int, sh as int, i as int));
            return false;
        }
        assert(stack_row_fits(t as int, gap as int, sh as int, i as int));
        i = i + 1;
    }
    true
}

/// Tells whether every value that placing `n` windows forms is representable
/// as an `i32`; `plan_layout` may be called exactly when it does.
pub fn check_layout_fits(n: i32, area: Rect, config: &LayoutConfig, split: MasterSplit) -> (r: bool)
    ensures
        r == layout_fits(n as int, area, config.gap_size as int, names_dwindle(config.layout_type), split),
{
    let w = area.right as i64 - area.left as i64;
    let h = area.bottom as i64 - area.top as i64;
    if !fits_i32(w) || !fits_i32(h) {
        return false;
    }
    if n == 0 {
        return true;
    }
    let gap = config.gap_size;
    let g = gap as i64;
    let dwindle = is_dwindle(&config.layout_type);
    if n == 1 || dwindle {
        if !(fits_i32(area.left as i64 + g) && fits_i32(area.top as i64 + g) && fits_i32(g * 2) && fits_i32(w - g * 2)
            && fits_i32(h - g * 2)) {
            return false;
        }
    }
    if n == 1 {
        return true;
    }
    if dwindle {
        check_dwindle_fits(
            area.left + gap,
            area.top + gap,
            (w - g * 2) as i32,
            (h - g * 2) as i32,
            gap,
            n,
        )
    } else {
        let fm = split.width as i64 - split.margin as i64;
        if !fits_i32(fm) {
            return false;
        }
        check_master_stack_fits(area.left, area.top, w as i32, h as i32, gap, n, fm as i32)
    }
}

/// Each tiled window paired with its tile, in workspace order: window `i` of
/// `ws` gets tile `i` of the layout of `ws.len()` windows (the count taken as
/// an `i32`, as `Workspace::tile_count` gives it).
pub open spec fn spec_placements(ws: Seq<isize>, area: Rect, gap: int, dwindle: bool, fm: int) -> Seq<(isize, Tile)> {
    let tiles = layout_tiles(ws.len() as i32 as int, area, gap, dwindle, fm);
    let k = if tiles.len() <= ws.len() { tiles.len() } else { ws.len() };
    Seq::new(k, |i: int| (ws[i], tiles[i]))
}

/// Places the windows of the workspace in the tiling area: each window, in
/// workspace order, with the frame `plan_layout` gives it.
pub fn placements(ws: &Workspace, area: Rect, config: &LayoutConfig, split: MasterSplit) -> (r: Vec<(isize, Frame)>)
    requires
        layout_fits(ws@.len() as i32 as int, area, config.gap_size as int, names_dwindle(config.layout_type), split),
    ensures
        r@.len() == spec_placements(ws@, area, config.gap_size as int, names_dwindle(config.layout_type), split.width - split.margin).len(),
        forall|i: int| 0 <= i < r@.len() ==> {
            let p = spec_placements(ws@, area, config.gap_size as int, names_dwindle(config.layout_type), split.width - split.margin)[i];
            &&& (#[trigger] r@[i]).0 == p.0
            &&& r@[i].1@ == p.1
        },
{
    let n = ws.tile_count();
    let frames = plan_layout(n, area, config, split);
    let ghost tiles = tiles_of(frames@);
    let k = if frames.len() <= ws.handles.len() { frames.len() } else { ws.handles.len() };
    let mut out: Vec<(isize, Frame)> = Vec::new();
    let mut i: usize = 0;
    while i < k
        invariant
            0 <= i <= k,
            k <= frames@.len(),
            k <= ws@.len(),
            tiles == tiles_of(frames@),
            out@.len() == i,
            forall|j: int| 0 <= j < i ==> (#[trigger] out@[j]).0 == ws@[j] && out@[j].1@ == tiles[j],
        decreases k - i,
    {
        out.push((ws.handles[i], frames[i]));
        i = i + 1;
    }
    out
}

/// Law: after the workspace is pruned by the alive flags, the windows placed
/// are exactly the surviving windows, each once and in their order (the
/// first gets the master or first dwindle tile), and window `i` gets tile
/// `i` of the layout; nothing is added. (A workspace of more than `i32::MAX`
/// windows is left out: its count does not fit the layouts' `i32`.)
pub proof fn law_update_layout_places_survivors(s: Seq<isize>, alive: Seq<bool>, area: Rect, gap: int, dwindle: bool, fm: int)
    requires
        alive.len() == s.len(),
        keep_alive(s, alive).len() <= i32::MAX,
    ensures
        ({
            let kept = keep_alive(s, alive);
            let placed = spec_placements(kept, area, gap, dwindle, fm);
            &&& placed.len() == kept.len()
            &&& forall|i: int| 0 <= i < placed.len() ==> (#[trigger] placed[i]).0 == kept[i]
                && placed[i].1 == layout_tiles(kept.len() as int, area, gap, dwindle, fm)[i]
            &&& forall|x: isize| #[trigger] kept.contains(x) ==> s.contains(x)
        }),
{
    let kept = keep_alive(s, alive);
    law_layout_one_tile_per_window(kept.len() as int, area, gap, dwindle, fm);
    assert((kept.len() as i32) as int == kept.len() as int);
    crate::workspace::law_prune_keeps_alive(s, alive);
    assert forall|x: isize| #[trigger] kept.contains(x) implies s.contains(x) by {
        let i = choose|i: int| 0 <= i < s.len() && s[i] == x && alive[i];
        assert(s[i] == x);
    }
}

/// Law: any layout name other than exactly `"dwindle"`, and no name at all,
/// select the master-stack layout for two or more windows.
pub proof fn law_other_names_select_master_stack(n: int, area: Rect, gap: int, name: Option<String>, fm: int)
    requires
        !names_dwindle(name),
        n != 0,
        n != 1,
    ensures
        layout_tiles(n, area, gap, names_dwindle(name), fm)
            == master_stack_tiles(area.left as int, area.top as int, area.spec_width(), area.spec_height(), gap, n, fm),
        layout_tiles(n, area, gap, names_dwindle(name), fm) == layout_tiles(n, area, gap, names_dwindle(None), fm),
{
}

/// `q` is Rust's quotient of `a` by `d > 0`: the division rounds toward
/// zero, so the remainder `a - d * q` has the sign of `a` and is smaller
/// than `d` in size.
pub open spec fn is_rust_quotient(a: int, d: int, q: int) -> bool {
    if a >= 0 {
        0 <= a - d * q < d
    } else {
        -d < a - d * q <= 0
    }
}

/// `trunc_div` by a positive divisor gives Rust's quotient.
pub proof fn lemma_trunc_div_is_rust_quotient(a: int, d: int)
    requires
        d > 0,
    ensures
        is_rust_quotient(a, d, trunc_div(a, d)),
{
    lemma_trunc_div(a, d);
    if a >= 0 {
        assert(0 <= a - d * (a / d) < d) by (nonlinear_arith)
            requires
                a >= 0,
                d > 0,
        {
            assert(a == d * (a / d) + a % d);
        }
    } else {
        let b = -a;
        assert(0 <= b - d * (b / d) < d) by (nonlinear_arith)
            requires
                b > 0,
                d > 0,
        {
            assert(b == d * (b / d) + b % d);
        }
        assert(a - d * (-(b / d)) == -(b - d * (b / d))) by (nonlinear_arith)
            requires
                b == -a,
        ;
    }
}

/// The first dwindle tile of a region starts at the region's origin.
proof fn lemma_dwindle_first_at_origin(r: Tile, gap: int, k: nat)
    requires
        k >= 1,
    ensures
        dwindle_tiles(r, gap, k)[0].x == r.x,
        dwindle_tiles(r, gap, k)[0].y == r.y,
{
}

/// Law: the dwindle layout cuts the longer side. With two or more windows,
/// when the region is wider than tall the first window has the region's
/// full height and half its width less the gap (rounded toward zero), and
/// the next window starts one gap to its right on the same top edge;
/// otherwise the first window has the full width and half the height less
/// the gap, and the next one starts one gap below it on the same left edge.
/// With exactly two windows the second fills the rest of the region.
pub proof fn law_dwindle_splits_longer_side(r: Tile, gap: int, k: nat)
    requires
        k >= 2,
    ensures
        ({
            let ts = dwindle_tiles(r, gap, k);
            &&& ts.len() == k
            &&& r.w > r.h ==> {
                &&& ts[0].x == r.x && ts[0].y == r.y && ts[0].h == r.h
                &&& is_rust_quotient(r.w - gap, 2, ts[0].w)
                &&& ts[1].x == r.x + ts[0].w + gap && ts[1].y == r.y
                &&& k == 2 ==> ts[1].w == r.w - ts[0].w - gap && ts[1].h == r.h
            }
            &&& r.w <= r.h ==> {
                &&& ts[0].x == r.x && ts[0].y == r.y && ts[0].w == r.w
                &&& is_rust_quotient(r.h - gap, 2, ts[0].h)
                &&& ts[1].y == r.y + ts[0].h + gap && ts[1].x == r.x
                &&& k == 2 ==> ts[1].h == r.h - ts[0].h - gap && ts[1].w == r.w
            }
        }),
{
    lemma_dwindle_len(r, gap, k);
    lemma_dwindle_len(dwindle_rest(r, gap), gap, (k - 1) as nat);
    lemma_dwindle_first_at_origin(dwindle_rest(r, gap), gap, (k - 1) as nat);
    lemma_trunc_div_is_rust_quotient(r.w - gap, 2);
    lemma_trunc_div_is_rust_quotient(r.h - gap, 2);
    let ts = dwindle_tiles(r, gap, k);
    assert(ts[0] == dwindle_first(r, gap));
    assert(ts[1] == dwindle_tiles(dwindle_rest(r, gap), gap, (k - 1) as nat)[0]);
}

/// Law: the master-stack layout of `n >= 2` windows puts the first window in
/// the master column, exactly `fm` pixels wide, inset by the gap at the
/// left, top and bottom; every other window starts one gap right of the
/// column, fills the width up to one gap from the right edge, and has the
/// stack height (the height less `n` gaps, shared among `n - 1` windows and
/// rounded toward zero), window `i` lying `i - 1` stack heights and gaps
/// below the top gap.
pub proof fn law_master_column(l: int, t: int, w: int, h: int, gap: int, n: int, fm: int)
    requires
        n >= 2,
    ensures
        ({
            let ts = master_stack_tiles(l, t, w, h, gap, n, fm);
            &&& ts.len() == n
            &&& ts[0] == tile(l + gap, t + gap, fm, h - 2 * gap)
            &&& forall|i: int| 1 <= i < n ==> {
                &&& (#[trigger] ts[i]).x == l + 2 * gap + fm
                &&& ts[i].w == w - fm - 3 * gap
                &&& is_rust_quotient(h - gap * n, n - 1, ts[i].h)
                &&& ts[i].y == t + gap + (i - 1) * (ts[i].h + gap)
            }
        }),
{
    lemma_trunc_div_is_rust_quotient(h - gap * n, n - 1);
    let ts = master_stack_tiles(l, t, w, h, gap, n, fm);
    assert forall|i: int| 1 <= i < n implies {
        &&& (#[trigger] ts[i]).x == l + 2 * gap + fm
        &&& ts[i].w == w - fm - 3 * gap
        &&& is_rust_quotient(h - gap * n, n - 1, ts[i].h)
        &&& ts[i].y == t + gap + (i - 1) * (ts[i].h + gap)
    } by {
        assert(ts[i] == stack_tile(l, t, w, h, gap, n, fm, i));
    }
}

/// Law: the status bar's strip at the top of the work area is 34 pixels.
pub proof fn law_bar_reserve()
    ensures
        BAR_RESERVE == 34,
{
}

/// Law: what `plan_layout` places, by the number of windows: nothing for
/// none; one window fills the tiling area less the gap on every side; two or
/// more are placed by the dwindle layout of that inset area when the layout
/// is dwindle, else by the master-stack layout of the area with the master
/// column `fm` wide.
pub proof fn law_layout_by_count(n: int, area: Rect, gap: int, dwindle: bool, fm: int)
    ensures
        ({
            let wd = area.right - area.left;
            let ht = area.bottom - area.top;
            let inset = tile(area.left + gap, area.top + gap, wd - 2 * gap, ht - 2 * gap);
            let ts = layout_tiles(n, area, gap, dwindle, fm);
            &&& n == 0 ==> ts.len() == 0
            &&& n == 1 ==> ts == seq![inset]
            &&& n >= 2 && dwindle ==> ts == dwindle_tiles(inset, gap, n as nat)
            &&& n >= 2 && !dwindle ==> ts == master_stack_tiles(area.left as int, area.top as int, wd, ht, gap, n, fm)
        }),
{
}

} // verus!
