//! Screen rectangles, window frames and their mathematical model.
use vstd::prelude::*;

verus! {

/// Whether a mathematical integer is representable as an `i32`.
pub open spec fn fits(v: int) -> bool {
    i32::MIN <= v <= i32::MAX
}

/// Tells whether a 64-bit value is representable as an `i32`.
pub fn fits_i32(v: i64) -> (r: bool)
    ensures
        r == fits(v as int),
{
    -0x8000_0000i64 <= v && v <= 0x7fff_ffffi64
}

/// Integer division rounding toward zero, as Rust's `/` on signed integers.
pub open spec fn trunc_div(a: int, b: int) -> int
    recommends
        b != 0,
{
    let q = if a >= 0 { a } else { -a };
    let d = if b >= 0 { b } else { -b };
    if (a >= 0) == (b > 0) {
        q / d
    } else {
        -(q / d)
    }
}

/// Rust's signed division, as vstd specifies it, is `trunc_div`.
pub proof fn lemma_trunc_div(a: int, b: int)
    requires
        b != 0,
    ensures
        trunc_div(a, b) == (if a >= 0 { a / b } else { -((-a) / b) }),
{
    if b < 0 {
        let q = if a >= 0 { a } else { -a };
        let d = -b;
        assert(q / b == -(q / d)) by (nonlinear_arith)
            requires
                q >= 0,
                d > 0,
                b == -d,
        {
            let qd = q / d;
            let rd = q % d;
            assert(q == d * qd + rd && 0 <= rd < d);
            assert(q == b * (-qd) + rd);
        }
    }
}

/// A placed rectangle over the integers: origin `(x, y)`, width `w`, height `h`.
/// A rectangle whose width or height is not positive covers no pixel.
pub struct Tile {
    pub x: int,
    pub y: int,
    pub w: int,
    pub h: int,
}

/// The tile with origin `(x, y)`, width `w` and height `h`.
pub open spec fn tile(x: int, y: int, w: int, h: int) -> Tile {
    Tile { x, y, w, h }
}

impl Tile {
    /// Whether pixel `(px, py)` lies inside the tile.
    pub open spec fn covers(self, px: int, py: int) -> bool {
        &&& self.x <= px < self.x + self.w
        &&& self.y <= py < self.y + self.h
    }
}

/// A window placement in screen pixels, as handed to the window system.
#[derive(Clone, Copy, Debug, PartialEq, Eq, Structural)]
pub struct Frame {
    pub x: i32,
    pub y: i32,
    pub w: i32,
    pub h: i32,
}

impl View for Frame {
    type V = Tile;

    open spec fn view(&self) -> Tile {
        Tile { x: self.x as int, y: self.y as int, w: self.w as int, h: self.h as int }
    }
}

/// The model of a sequence of frames.
pub open spec fn tiles_of(frames: Seq<Frame>) -> Seq<Tile> {
    frames.map_values(|f: Frame| f@)
}

pub proof fn lemma_tiles_of_push(frames: Seq<Frame>, f: Frame)
    ensures
        tiles_of(frames.push(f)) == tiles_of(frames).push(f@),
{
    assert(tiles_of(frames.push(f)) =~= tiles_of(frames).push(f@));
}

/// A screen rectangle given by its edges, as the window system reports it.
#[derive(Clone, Copy, Debug, PartialEq, Eq, Structural)]
pub struct Rect {
    pub left: i32,
    pub top: i32,
    pub right: i32,
    pub bottom: i32,
}

impl Rect {
    /// The width of the rectangle.
    pub open spec fn spec_width(self) -> int {
        self.right - self.left
    }

    /// The height of the rectangle.
    pub open spec fn spec_height(self) -> int {
        self.bottom - self.top
    }

    /// The width of the rectangle: right edge less left edge.
    pub fn width(&self) -> (r: i32)
        requires
            fits(self.spec_width()),
        ensures
            r == self.spec_width(),
    {
        self.right - self.left
    }

    /// The height of the rectangle: bottom edge less top edge.
    pub fn height(&self) -> (r: i32)
        requires
            fits(self.spec_height()),
        ensures
            r == self.spec_height(),
    {
        self.bottom - self.top
    }
}

} // verus!
