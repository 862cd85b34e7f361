//! Points, the camera, and the mapping from the screen to the board.

use vstd::prelude::*;

verus! {

/// One pixel, or the ratio one, in 16.16 fixed point.
pub const ONE: i64 = 65536;

/// The smallest zoom: a tenth, rounded up.
pub const ZOOM_MIN: u32 = 6554;

/// The largest zoom: one and a half.
pub const ZOOM_MAX: u32 = 98304;

/// A thousandth, rounded down: a camera that has moved or zoomed by no more
/// than this shows the frame it showed before.
pub const EPSILON: i64 = 65;

/// A step of the camera for one key press: fifty pixels.
pub const PAN_STEP: i64 = 3276800;

/// A position on the board or on the screen, in 16.16 fixed point: `65536`
/// is one pixel to the right, or one pixel down.
#[derive(Clone, Copy, Debug, PartialEq, Eq, Structural)]
pub struct Point {
    pub x: i64,
    pub y: i64,
}

/// The camera: the board position shown in the screen's top left corner, and
/// the number of screen pixels per board pixel, in 16.16 fixed point.
#[derive(Clone, Copy, Debug, PartialEq, Eq, Structural)]
pub struct Viewport {
    pub position: Point,
    pub zoom: u32,
}

/// `v`, held to the range of `i64`.
pub open spec fn saturated(v: int) -> i64 {
    if v < i64::MIN {
        i64::MIN
    } else if v > i64::MAX {
        i64::MAX
    } else {
        v as i64
    }
}

/// `v`, held between `lo` and `hi`.
pub open spec fn clamped(v: int, lo: int, hi: int) -> int {
    if v < lo {
        lo
    } else if v > hi {
        hi
    } else {
        v
    }
}

/// The pixel that a fixed-point coordinate lies in: rounded down.
pub open spec fn floor_pixel(v: int) -> int {
    v / 65536
}

/// The whole part of a fixed-point coordinate: rounded towards zero.
pub open spec fn whole_pixel(v: int) -> int {
    if v >= 0 {
        v / 65536
    } else {
        -((-v) / 65536)
    }
}

/// One over a ratio, both in 16.16 fixed point, rounded down.
pub open spec fn reciprocal(ratio: int) -> int {
    0x1_0000_0000int / ratio
}

/// A fixed-point length divided by a fixed-point ratio, rounded down.
pub open spec fn divided(length: int, ratio: int) -> int {
    (length * 65536) / ratio
}

/// The board pixel shown at screen pixel `s` along one axis, for a camera at
/// `origin` with reciprocal zoom `inverse`: `origin + s / zoom`, rounded down
/// to a whole pixel.
pub open spec fn projected(origin: int, s: int, inverse: int) -> int {
    floor_pixel(origin + s * inverse)
}

/// The zoom after one notch of the wheel: times 1.1 or times 0.9, held
/// between `ZOOM_MIN` and `ZOOM_MAX`.
pub open spec fn stepped_zoom(zoom: int, zoom_in: bool) -> int {
    clamped(
        if zoom_in {
            zoom * 11 / 10
        } else {
            zoom * 9 / 10
        },
        ZOOM_MIN as int,
        ZOOM_MAX as int,
    )
}

/// `v`, held to the range of `i64`.
pub fn saturate(v: i128) -> (r: i64)
    ensures
        r == saturated(v as int),
{
    if v < i64::MIN as i128 {
        i64::MIN
    } else if v > i64::MAX as i128 {
        i64::MAX
    } else {
        v as i64
    }
}

/// `length / ratio` for a fixed-point length and a positive fixed-point
/// ratio, rounded down.
pub fn divide(length: i64, ratio: u32) -> (q: i128)
    requires
        ratio > 0,
    ensures
        q == divided(length as int, ratio as int),
{
    let scaled: i128 = length as i128 * 65536;
    proof {
        let d = ratio as int;
        let n = scaled as int;
        vstd::arithmetic::div_mod::lemma_fundamental_div_mod(n, d);
        vstd::arithmetic::div_mod::lemma_mod_bound(n, d);
        assert(-0x1_0000_0000_0000_0000_0000 <= n / d <= 0x1_0000_0000_0000_0000_0000)
            by (nonlinear_arith)
            requires
                d > 0,
                -0x1_0000_0000_0000_0000_0000 <= n <= 0x1_0000_0000_0000_0000_0000,
                n == d * (n / d) + n % d,
                0 <= n % d < d,
        ;
    }
    match scaled.checked_div_euclid(ratio as i128) {
        Some(q) => q,
        None => 0,
    }
}

/// The pixel that a fixed-point coordinate lies in: rounded down.
pub fn floor_to_pixel(v: i64) -> (p: i64)
    ensures
        p == floor_pixel(v as int),
{
    match v.checked_div_euclid(65536) {
        Some(p) => p,
        None => 0,
    }
}

/// The whole part of a fixed-point coordinate: rounded towards zero.
pub fn whole_of(v: i64) -> (p: i64)
    ensures
        p == whole_pixel(v as int),
{
    v / 65536
}

impl Point {
    pub fn new(x: i64, y: i64) -> (p: Point)
        ensures
            p == (Point { x, y }),
    {
        Point { x, y }
    }

    /// The point of whole pixels `(x, y)`.
    pub fn from_pixels(x: i32, y: i32) -> (p: Point)
        ensures
            p.x == x * 65536,
            p.y == y * 65536,
    {
        Point { x: x as i64 * 65536, y: y as i64 * 65536 }
    }
}

impl Viewport {
    /// A camera can be used when its zoom lies between `ZOOM_MIN` and
    /// `ZOOM_MAX`.
    pub open spec fn wf(&self) -> bool {
        ZOOM_MIN <= self.zoom <= ZOOM_MAX
    }

    /// The board position under a screen position:
    /// `position + screen / zoom`, each coordinate by itself.
    pub open spec fn canvas_point(&self, screen: Point) -> Point {
        Point {
            x: saturated(self.position.x + divided(screen.x as int, self.zoom as int)),
            y: saturated(self.position.y + divided(screen.y as int, self.zoom as int)),
        }
    }

    /// The camera after a zoom step about the screen position `cursor`: the
    /// zoom is stepped, and the position is such that the board point under
    /// the cursor before the step is `position + cursor / zoom` after it.
    pub open spec fn zoomed_at(&self, cursor: Point, zoom_in: bool) -> Viewport {
        let held = self.canvas_point(cursor);
        let zoom = stepped_zoom(self.zoom as int, zoom_in);
        Viewport {
            position: Point {
                x: saturated(held.x - divided(cursor.x as int, zoom)),
                y: saturated(held.y - divided(cursor.y as int, zoom)),
            },
            zoom: zoom as u32,
        }
    }

    /// The camera with its zoom held between `ZOOM_MIN` and `ZOOM_MAX`.
    pub open spec fn bounded(&self) -> Viewport {
        Viewport {
            position: self.position,
            zoom: clamped(self.zoom as int, ZOOM_MIN as int, ZOOM_MAX as int) as u32,
        }
    }

    /// The camera at the board's origin, at zoom one.
    pub open spec fn home() -> Viewport {
        Viewport { position: Point { x: 0, y: 0 }, zoom: 65536 }
    }

    /// The camera after a move by `(dx, dy)` that stops at the ends of the
    /// range.
    pub open spec fn panned(&self, dx: i64, dy: i64) -> Viewport {
        Viewport {
            position: Point {
                x: saturated(self.position.x + dx),
                y: saturated(self.position.y + dy),
            },
            zoom: self.zoom,
        }
    }

    /// The camera at the board's origin, at zoom one.
    #[verifier::when_used_as_spec(home)]
    pub fn new() -> (v: Viewport)
        ensures
            v == Viewport::home(),
            v.wf(),
    {
        Viewport { position: Point { x: 0, y: 0 }, zoom: 65536 }
    }

    /// The camera with its zoom held between `ZOOM_MIN` and `ZOOM_MAX`.
    pub fn held(&self) -> (v: Viewport)
        ensures
            v == self.bounded(),
            v.wf(),
            self.wf() ==> v == *self,
    {
        Viewport {
            position: self.position,
            zoom: if self.zoom < ZOOM_MIN {
                ZOOM_MIN
            } else if self.zoom > ZOOM_MAX {
                ZOOM_MAX
            } else {
                self.zoom
            },
        }
    }

    /// One over the zoom, in 16.16 fixed point.
    pub fn inverse_zoom(&self) -> (inverse: i64)
        requires
            self.wf(),
        ensures
            inverse == reciprocal(self.zoom as int),
            43690 <= inverse <= 655320,
    {
        let inverse: u64 = 0x1_0000_0000u64 / (self.zoom as u64);
        proof {
            let z = self.zoom as int;
            vstd::arithmetic::div_mod::lemma_fundamental_div_mod(0x1_0000_0000, z);
            vstd::arithmetic::div_mod::lemma_mod_bound(0x1_0000_0000, z);
            let q = 0x1_0000_0000int / z;
            assert(43690 <= q <= 655320) by (nonlinear_arith)
                requires
                    6554 <= z <= 98304,
                    0x1_0000_0000int == z * q + 0x1_0000_0000int % z,
                    0 <= 0x1_0000_0000int % z < z,
            ;
        }
        inverse as i64
    }

    /// The board position under a screen position.
    pub fn screen_to_canvas(&self, screen: Point) -> (p: Point)
        requires
            self.wf(),
        ensures
            p == self.canvas_point(screen),
    {
        let dx: i128 = divide(screen.x, self.zoom);
        let dy: i128 = divide(screen.y, self.zoom);
        proof {
            lemma_divided_range(screen.x as int, self.zoom as int);
            lemma_divided_range(screen.y as int, self.zoom as int);
        }
        Point { x: saturate(self.position.x as i128 + dx), y: saturate(self.position.y as i128 + dy) }
    }

    /// Zooms by one notch of the wheel, in or out, about the screen position
    /// `cursor`.
    pub fn zoom_at(&mut self, cursor: Point, zoom_in: bool)
        requires
            old(self).wf(),
        ensures
            *final(self) == old(self).zoomed_at(cursor, zoom_in),
            final(self).wf(),
    {
        let held: Point = self.screen_to_canvas(cursor);
        let stepped: u64 = if zoom_in {
            self.zoom as u64 * 11 / 10
        } else {
            self.zoom as u64 * 9 / 10
        };
        let zoom: u32 = if stepped < ZOOM_MIN as u64 {
            ZOOM_MIN
        } else if stepped > ZOOM_MAX as u64 {
            ZOOM_MAX
        } else {
            stepped as u32
        };
        let dx: i128 = divide(cursor.x, zoom);
        let dy: i128 = divide(cursor.y, zoom);
        proof {
            lemma_divided_range(cursor.x as int, zoom as int);
            lemma_divided_range(cursor.y as int, zoom as int);
        }
        self.zoom = zoom;
        self.position = Point { x: saturate(held.x as i128 - dx), y: saturate(held.y as i128 - dy) };
    }

    /// Moves the camera by `(dx, dy)`, stopping at the ends of the range.
    pub fn pan(&mut self, dx: i64, dy: i64)
        ensures
            *final(self) == old(self).panned(dx, dy),
    {
        self.position = Point {
            x: saturate(self.position.x as i128 + dx as i128),
            y: saturate(self.position.y as i128 + dy as i128),
        };
    }
}

pub proof fn lemma_divided_range(length: int, ratio: int)
    requires
        ratio > 0,
        i64::MIN <= length <= i64::MAX,
    ensures
        -0x1_0000_0000_0000_0000_0000 <= divided(length, ratio) <= 0x1_0000_0000_0000_0000_0000,
{
    let n = length * 65536;
    vstd::arithmetic::div_mod::lemma_fundamental_div_mod(n, ratio);
    vstd::arithmetic::div_mod::lemma_mod_bound(n, ratio);
    assert(-0x1_0000_0000_0000_0000_0000 <= n / ratio <= 0x1_0000_0000_0000_0000_0000)
        by (nonlinear_arith)
        requires
            ratio > 0,
            -0x1_0000_0000_0000_0000_0000 <= n <= 0x1_0000_0000_0000_0000_0000,
            n == ratio * (n / ratio) + n % ratio,
            0 <= n % ratio < ratio,
    ;
}

/// A zoom step keeps the board point under the cursor where it is, as long as
/// no coordinate runs into the end of the range.
pub proof fn lemma_zoom_holds_cursor(view: Viewport, cursor: Point, zoom_in: bool)
    requires
        view.wf(),
        ({
            let held = view.canvas_point(cursor);
            let zoom = stepped_zoom(view.zoom as int, zoom_in);
            &&& i64::MIN <= held.x - divided(cursor.x as int, zoom) <= i64::MAX
            &&& i64::MIN <= held.y - divided(cursor.y as int, zoom) <= i64::MAX
        }),
    ensures
        view.zoomed_at(cursor, zoom_in).canvas_point(cursor) == view.canvas_point(cursor),
{
}

} // verus!
