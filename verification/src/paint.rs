//! Painting on a frame: boxes of pixels, each pixel decided by a shade.
//!
//! A frame is a buffer of RGBA bytes with rows `width` pixels long. What is
//! painted is clipped: a pixel outside the rows' width, or outside the
//! buffer, is left out.

use vstd::prelude::*;
use crate::color::laid_over;
use crate::color::lay_over;
use crate::color::Rgba;
use crate::grid::get_pixel;
use crate::grid::lemma_pixel_written;
use crate::grid::pixel_at;
use crate::grid::set_pixel;

verus! {

/// What decides the colour of each pixel of a box, from the pixel's offset
/// in the box and the colour that is there.
pub trait Shade {
    /// What the shade needs to hold of itself.
    spec fn ready(&self) -> bool;

    /// The colour of the pixel at offset `(ox, oy)` from the box's corner,
    /// where the frame holds `under`.
    spec fn shaded(&self, ox: int, oy: int, under: Rgba) -> Rgba;

    fn shade(&self, ox: u32, oy: u32, under: Rgba) -> (c: Rgba)
        requires
            self.ready(),
        ensures
            c == self.shaded(ox as int, oy as int, under),
    ;
}

/// One colour, whatever was there.
pub struct Solid {
    pub color: Rgba,
}

/// One colour laid over what was there, the result opaque.
pub struct Tint {
    pub color: Rgba,
}

impl Shade for Solid {
    open spec fn ready(&self) -> bool {
        true
    }

    open spec fn shaded(&self, ox: int, oy: int, under: Rgba) -> Rgba {
        self.color
    }

    fn shade(&self, ox: u32, oy: u32, under: Rgba) -> (c: Rgba) {
        self.color
    }
}

impl Shade for Tint {
    open spec fn ready(&self) -> bool {
        true
    }

    open spec fn shaded(&self, ox: int, oy: int, under: Rgba) -> Rgba {
        laid_over(self.color, under, true)
    }

    fn shade(&self, ox: u32, oy: u32, under: Rgba) -> (c: Rgba) {
        lay_over(self.color, under, true)
    }
}

/// Whether the pixel with index `p` of a frame lies in the box with corner
/// `(x0, y0)`, `w` wide and `h` high, and whole in a buffer of `len` bytes.
pub open spec fn in_box(len: int, width: int, x0: int, y0: int, w: int, h: int, p: int) -> bool {
    &&& width > 0
    &&& 0 <= p
    &&& 4 * p + 4 <= len
    &&& x0 <= p % width < x0 + w
    &&& y0 <= p / width < y0 + h
}

/// The pixel with index `p` of a frame once the box is painted.
pub open spec fn painted_pixel<S: Shade>(
    frame: Seq<u8>,
    width: int,
    x0: int,
    y0: int,
    w: int,
    h: int,
    shade: S,
    p: int,
) -> Rgba {
    if in_box(frame.len() as int, width, x0, y0, w, h, p) {
        shade.shaded(p % width - x0, p / width - y0, pixel_at(frame, p))
    } else {
        pixel_at(frame, p)
    }
}

/// A frame once the box with corner `(x0, y0)`, `w` wide and `h` high, is
/// painted with `shade`: every pixel of the box that lies in the frame
/// takes the shade's colour, and nothing else changes.
pub open spec fn painted<S: Shade>(
    frame: Seq<u8>,
    width: int,
    x0: int,
    y0: int,
    w: int,
    h: int,
    shade: S,
) -> Seq<u8> {
    Seq::new(
        frame.len(),
        |k: int|
            if in_box(frame.len() as int, width, x0, y0, w, h, k / 4) {
                shade.shaded(
                    (k / 4) % width - x0,
                    (k / 4) / width - y0,
                    pixel_at(frame, k / 4),
                ).channel(k % 4)
            } else {
                frame[k]
            },
    )
}

/// A box that lies to the right of the rows, below the buffer, or nowhere
/// at all paints nothing.
pub proof fn lemma_painted_off_frame<S: Shade>(
    frame: Seq<u8>,
    width: int,
    x0: int,
    y0: int,
    w: int,
    h: int,
    shade: S,
)
    requires
        width <= 0 || x0 >= width || x0 + w <= 0 || y0 + h <= 0 || w <= 0 || h <= 0 || y0 * width
            * 4 >= frame.len(),
    ensures
        painted(frame, width, x0, y0, w, h, shade) == frame,
{
    let after = painted(frame, width, x0, y0, w, h, shade);
    assert forall|k: int| 0 <= k < frame.len() implies after[k] == frame[k] by {
        let p = k / 4;
        if width > 0 {
            vstd::arithmetic::div_mod::lemma_mod_bound(p, width);
            vstd::arithmetic::div_mod::lemma_fundamental_div_mod(p, width);
            if y0 * width * 4 >= frame.len() && y0 <= p / width {
                assert(y0 * width <= (p / width) * width && (p / width) * width == width * (p
                    / width)) by (nonlinear_arith)
                    requires
                        y0 <= p / width,
                        width > 0,
                ;
            }
            if y0 + h <= 0 {
                vstd::arithmetic::div_mod::lemma_div_pos_is_pos(p, width);
            }
        }
    }
    assert(after =~= frame);
}

/// The pixel in column `px` of row `py`: which pixel it is, and that it is
/// in that column and row.
proof fn lemma_pixel_index(p: int, px: int, py: int, width: int)
    requires
        0 <= px < width,
        0 <= py,
        p == py * width + px,
    ensures
        0 <= p,
        p / width == py,
        p % width == px,
{
    vstd::arithmetic::div_mod::lemma_fundamental_div_mod_converse(p, width, py, px);
    assert(0 <= py * width) by (nonlinear_arith)
        requires
            0 <= py,
            0 < width,
    ;
}

/// Paints the box with corner `(x0, y0)`, `w` wide and `h` high, with
/// `shade`.
pub fn paint<S: Shade>(frame: &mut [u8], width: u32, x0: i64, y0: i64, w: u32, h: u32, shade: &S)
    requires
        shade.ready(),
    ensures
        final(frame)@ == painted(
            old(frame)@,
            width as int,
            x0 as int,
            y0 as int,
            w as int,
            h as int,
            *shade,
        ),
{
    assert(frame@.len() == frame.len());
    let ghost goal = painted(
        old(frame)@,
        width as int,
        x0 as int,
        y0 as int,
        w as int,
        h as int,
        *shade,
    );
    let pixels: usize = frame.len() / 4;
    if width == 0 || w == 0 || h == 0 || x0 >= width as i64 || x0 as i128 + (w as i128) <= 0
        || y0 as i128 + (h as i128) <= 0 {
        proof {
            lemma_painted_off_frame(
                frame@,
                width as int,
                x0 as int,
                y0 as int,
                w as int,
                h as int,
                *shade,
            );
        }
        return ;
    }
    // The rows that hold a whole pixel: one more than whole rows where the
    // last row is cut short.
    let rows: i128 = (pixels as i128 + width as i128 - 1) / (width as i128);
    let left: i128 = if x0 < 0 {
        0
    } else {
        x0 as i128
    };
    let right: i128 = if x0 as i128 + (w as i128) < width as i128 {
        x0 as i128 + w as i128
    } else {
        width as i128
    };
    let top: i128 = if y0 < 0 {
        0
    } else {
        y0 as i128
    };
    let bottom: i128 = if y0 as i128 + (h as i128) < rows {
        y0 as i128 + h as i128
    } else {
        rows
    };
    proof {
        assert forall|p: int| 0 <= p < pixels implies #[trigger] pixel_at(goal, p) == painted_pixel(
            old(frame)@,
            width as int,
            x0 as int,
            y0 as int,
            w as int,
            h as int,
            *shade,
            p,
        ) by {
            assert((4 * p) / 4 == p && (4 * p + 1) / 4 == p && (4 * p + 2) / 4 == p && (4 * p + 3)
                / 4 == p);
        }
        vstd::arithmetic::div_mod::lemma_fundamental_div_mod(pixels + width - 1, width as int);
        vstd::arithmetic::div_mod::lemma_mod_bound(pixels + width - 1, width as int);
        let r = rows as int;
        vstd::arithmetic::div_mod::lemma_div_nonincreasing(pixels + width - 1, width as int);
        assert(r * width >= pixels && r >= 0) by (nonlinear_arith)
            requires
                pixels + width - 1 == width * r + (pixels + width - 1) % (width as int),
                0 <= (pixels + width - 1) % (width as int) < width,
                pixels >= 0,
                width > 0,
        ;
    }
    let mut py: i128 = top;
    while py < bottom
        invariant
            shade.ready(),
            width > 0,
            pixels == frame@.len() / 4,
            frame@.len() == old(frame)@.len(),
            frame@.len() <= usize::MAX,
            0 <= rows <= 0x2_0000_0000_0000_0000,
            rows * width >= pixels,
            0 <= left,
            left == if x0 < 0 {
                0
            } else {
                x0 as int
            },
            right == if x0 + w < width {
                x0 + w
            } else {
                width as int
            },
            top == if y0 < 0 {
                0
            } else {
                y0 as int
            },
            bottom == if y0 + h < rows {
                y0 + h
            } else {
                rows as int
            },
            top <= py,
            py <= bottom || bottom < top,
            forall|k: int| 4 * pixels <= k < frame@.len() ==> frame@[k] == old(frame)@[k],
            forall|p: int|
                0 <= p < pixels ==> #[trigger] pixel_at(goal, p) == painted_pixel(
                    old(frame)@,
                    width as int,
                    x0 as int,
                    y0 as int,
                    w as int,
                    h as int,
                    *shade,
                    p,
                ),
            forall|p: int|
                0 <= p < pixels ==> #[trigger] pixel_at(frame@, p) == if p / (width as int) < py {
                    pixel_at(goal, p)
                } else {
                    pixel_at(old(frame)@, p)
                },
        decreases bottom - py,
    {
        let mut px: i128 = left;
        while px < right
            invariant
                shade.ready(),
                width > 0,
                pixels == frame@.len() / 4,
                frame@.len() == old(frame)@.len(),
                frame@.len() <= usize::MAX,
                0 <= rows <= 0x2_0000_0000_0000_0000,
                rows * width >= pixels,
                0 <= left <= px,
                left == if x0 < 0 {
                    0
                } else {
                    x0 as int
                },
                right == if x0 + w < width {
                    x0 + w
                } else {
                    width as int
                },
                px <= right || right < left,
                right <= width,
                0 <= py < rows,
                y0 <= py < y0 + h,
                forall|k: int| 4 * pixels <= k < frame@.len() ==> frame@[k] == old(frame)@[k],
                forall|p: int|
                    0 <= p < pixels ==> #[trigger] pixel_at(goal, p) == painted_pixel(
                        old(frame)@,
                        width as int,
                        x0 as int,
                        y0 as int,
                        w as int,
                        h as int,
                        *shade,
                        p,
                    ),
                forall|p: int|
                    0 <= p < pixels ==> #[trigger] pixel_at(frame@, p) == if p / (width as int)
                        < py || (p / (width as int) == py && p % (width as int) < px) {
                        pixel_at(goal, p)
                    } else {
                        pixel_at(old(frame)@, p)
                    },
            decreases right - px,
        {
            assert(0 <= py * width <= 0x2_0000_0000_0000_0000 * 0x1_0000_0000) by (nonlinear_arith)
                requires
                    0 <= py < rows,
                    rows <= 0x2_0000_0000_0000_0000,
                    0 < width <= 0x1_0000_0000,
            ;
            let index: i128 = py * (width as i128) + px;
            let ghost p = index as int;
            let ghost before = frame@;
            proof {
                lemma_pixel_index(p, px as int, py as int, width as int);
            }
            if index < pixels as i128 {
                let at: usize = index as usize;
                let under: Rgba = get_pixel(frame, at);
                let shown: Rgba = shade.shade((px - x0 as i128) as u32, (py - y0 as i128) as u32, under);
                assert(in_box(
                    old(frame)@.len() as int,
                    width as int,
                    x0 as int,
                    y0 as int,
                    w as int,
                    h as int,
                    p,
                ));
                assert(shown == pixel_at(goal, p));
                set_pixel(frame, at, shown);
                proof {
                    lemma_pixel_written(before, p, shown, p);
                }
            }
            proof {
                assert forall|q: int| 0 <= q < pixels implies #[trigger] pixel_at(frame@, q) == if q
                    / (width as int) < py || (q / (width as int) == py && q % (width as int) < px
                    + 1) {
                    pixel_at(goal, q)
                } else {
                    pixel_at(old(frame)@, q)
                } by {
                    if q != p {
                        if before != frame@ {
                            lemma_pixel_written(before, p, pixel_at(frame@, p), q);
                        }
                        vstd::arithmetic::div_mod::lemma_fundamental_div_mod(q, width as int);
                        let row = q / (width as int);
                        assert(row == py ==> (width as int) * row == py * width)
                            by (nonlinear_arith);
                    }
                }
            }
            px = px + 1;
        }
        proof {
            assert forall|q: int| 0 <= q < pixels implies #[trigger] pixel_at(frame@, q) == if q / (
            width as int) < py + 1 {
                pixel_at(goal, q)
            } else {
                pixel_at(old(frame)@, q)
            } by {
                vstd::arithmetic::div_mod::lemma_mod_bound(q, width as int);
            }
        }
        py = py + 1;
    }
    proof {
        assert forall|k: int| 0 <= k < frame@.len() implies frame@[k] == goal[k] by {
            let q = k / 4;
            if q < pixels {
                vstd::arithmetic::div_mod::lemma_mod_bound(q, width as int);
                vstd::arithmetic::div_mod::lemma_fundamental_div_mod(q, width as int);
                vstd::arithmetic::div_mod::lemma_div_pos_is_pos(q, width as int);
                let row = q / (width as int);
                assert(row < rows) by (nonlinear_arith)
                    requires
                        q == width * row + q % (width as int),
                        0 <= q % (width as int),
                        q < pixels,
                        rows * width >= pixels,
                        width > 0,
                        row >= 0,
                ;
                assert(pixel_at(frame@, q) == pixel_at(goal, q));
                assert(k == 4 * q + k % 4);
            }
        }
        assert(frame@ =~= goal);
    }
}

/// The part of a box's height that lies above row `height`.
pub open spec fn rows_above(y0: int, h: int, height: int) -> int {
    if y0 >= height {
        0
    } else if y0 + h <= height {
        h
    } else {
        height - y0
    }
}

/// A frame once the box is painted as far as it lies in the first `height`
/// rows.
pub open spec fn painted_within<S: Shade>(
    frame: Seq<u8>,
    width: int,
    height: int,
    x0: int,
    y0: int,
    w: int,
    h: int,
    shade: S,
) -> Seq<u8> {
    painted(frame, width, x0, y0, w, rows_above(y0, h, height), shade)
}

/// Paints a box whose corner may lie anywhere.
pub fn paint_wide<S: Shade>(
    frame: &mut [u8],
    width: u32,
    x0: i128,
    y0: i128,
    w: u32,
    h: u32,
    shade: &S,
)
    requires
        shade.ready(),
        -0x1_0000_0000_0000_0000_0000_0000_0000_00 <= x0 <= 0x1_0000_0000_0000_0000_0000_0000_0000_00,
        -0x1_0000_0000_0000_0000_0000_0000_0000_00 <= y0 <= 0x1_0000_0000_0000_0000_0000_0000_0000_00,
    ensures
        final(frame)@ == painted(
            old(frame)@,
            width as int,
            x0 as int,
            y0 as int,
            w as int,
            h as int,
            *shade,
        ),
{
    assert(frame@.len() == frame.len());
    if x0 >= width as i128 || x0 + (w as i128) <= 0 || y0 + (h as i128) <= 0 || y0
        >= 0x1_0000_0000_0000_0000 {
        proof {
            if y0 >= 0x1_0000_0000_0000_0000 && width > 0 {
                assert(y0 * width * 4 >= 0x1_0000_0000_0000_0000) by (nonlinear_arith)
                    requires
                        y0 >= 0x1_0000_0000_0000_0000,
                        width >= 1,
                ;
            }
            lemma_painted_off_frame(
                frame@,
                width as int,
                x0 as int,
                y0 as int,
                w as int,
                h as int,
                *shade,
            );
        }
        return ;
    }
    if y0 > i64::MAX as i128 {
        // Below every row that a buffer can hold.
        proof {
            if width > 0 {
                assert(y0 * width * 4 >= 0x1_0000_0000_0000_0000) by (nonlinear_arith)
                    requires
                        y0 >= 0x7fff_ffff_ffff_ffff,
                        width >= 1,
                ;
            }
            lemma_painted_off_frame(
                frame@,
                width as int,
                x0 as int,
                y0 as int,
                w as int,
                h as int,
                *shade,
            );
        }
        return ;
    }
    paint(frame, width, x0 as i64, y0 as i64, w, h, shade);
}

/// Paints a box as far as it lies in the first `height` rows.
pub fn paint_within<S: Shade>(
    frame: &mut [u8],
    width: u32,
    height: u32,
    x0: i128,
    y0: i128,
    w: u32,
    h: u32,
    shade: &S,
)
    requires
        shade.ready(),
        -0x1_0000_0000_0000_0000_0000_0000_0000_00 <= x0 <= 0x1_0000_0000_0000_0000_0000_0000_0000_00,
        -0x1_0000_0000_0000_0000_0000_0000_0000_00 <= y0 <= 0x1_0000_0000_0000_0000_0000_0000_0000_00,
    ensures
        final(frame)@ == painted_within(
            old(frame)@,
            width as int,
            height as int,
            x0 as int,
            y0 as int,
            w as int,
            h as int,
            *shade,
        ),
{
    let visible: u32 = if y0 >= height as i128 {
        0
    } else if y0 + (h as i128) <= height as i128 {
        h
    } else {
        (height as i128 - y0) as u32
    };
    paint_wide(frame, width, x0, y0, w, visible, shade);
}

} // verus!
