//! The brush: dabs, and the strokes that are made of them.

use vstd::prelude::*;
use crate::board::Board;
use crate::board::BoardView;
use crate::color::Rgba;
use crate::grid::cell;
use crate::grid::lemma_cell_of_index;
use crate::grid::lemma_cell_range;
use crate::grid::pixel_at;
use crate::grid::wrap;
use crate::viewport::whole_pixel;
use crate::viewport::Point;

verus! {

/// Whether the offset `(dx, dy)` from a dab's centre lies in the dab: a disk,
/// the squared distance no more than the squared radius.
pub open spec fn in_disk(dx: int, dy: int, radius: int) -> bool {
    -radius <= dx <= radius && -radius <= dy <= radius && dx * dx + dy * dy <= radius * radius
}

/// Whether a dab of radius `radius` about `(cx, cy)` reaches the pixel in
/// column `column` of row `row`, on a board `width` pixels wide: some offset
/// in the disk leads from the centre to that row and, round the cylinder, to
/// that column.
pub open spec fn dab_covers(
    cx: int,
    cy: int,
    radius: int,
    width: int,
    column: int,
    row: int,
) -> bool {
    exists|dx: int| #[trigger] in_disk(dx, row - cy, radius) && wrap(cx + dx, width) == column
}

/// `dab_covers`, by offsets to the left of `limit` alone.
pub open spec fn dab_covers_left_of(
    cx: int,
    cy: int,
    radius: int,
    width: int,
    column: int,
    row: int,
    limit: int,
) -> bool {
    exists|dx: int|
        dx < limit && #[trigger] in_disk(dx, row - cy, radius) && wrap(cx + dx, width) == column
}

/// A layer after a dab of `color`: every pixel that the dab reaches takes the
/// colour, and the others stay.
pub open spec fn dabbed(
    layer: Seq<u8>,
    width: int,
    cx: int,
    cy: int,
    radius: int,
    color: Rgba,
) -> Seq<u8> {
    Seq::new(
        layer.len(),
        |k: int|
            if dab_covers(cx, cy, radius, width, (k / 4) % width, (k / 4) / width) {
                color.channel(k % 4)
            } else {
                layer[k]
            },
    )
}

/// Whether `n` steps of one pixel are enough to cover the distance
/// `(dx, dy)`, given in 16.16 fixed point.
pub open spec fn enough_steps(n: int, dx: int, dy: int) -> bool {
    (n * 65536) * (n * 65536) >= dx * dx + dy * dy
}

/// Whether `n` is the number of steps for a stroke segment over the distance
/// `(dx, dy)`: the distance in pixels rounded up, but at least 1 and at most
/// `i32::MAX`.
pub open spec fn is_step_count(n: int, dx: int, dy: int) -> bool {
    &&& 1 <= n <= i32::MAX
    &&& enough_steps(n, dx, dy) || n == i32::MAX
    &&& n == 1 || !enough_steps(n - 1, dx, dy)
}

/// The number of steps for a stroke segment over the distance `(dx, dy)`.
pub open spec fn step_count(dx: int, dy: int) -> int {
    choose|n: int| is_step_count(n, dx, dy)
}

/// Point `i` of `steps + 1` along the segment from `from` to `to`, along one
/// axis.
pub open spec fn along(from: int, to: int, steps: int, i: int) -> int {
    from + ((to - from) * i) / steps
}

/// The drawing layer after the first `n` dabs of a stroke segment from
/// `from` to `to` in `steps` steps.
pub open spec fn stroked(
    layer: Seq<u8>,
    width: int,
    from: Point,
    to: Point,
    steps: int,
    radius: int,
    color: Rgba,
    n: int,
) -> Seq<u8>
    decreases n,
{
    if n <= 0 {
        layer
    } else {
        dabbed(
            stroked(layer, width, from, to, steps, radius, color, n - 1),
            width,
            whole_pixel(along(from.x as int, to.x as int, steps, n - 1)),
            whole_pixel(along(from.y as int, to.y as int, steps, n - 1)),
            radius,
            color,
        )
    }
}

pub proof fn lemma_enough_steps_grows(a: int, b: int, dx: int, dy: int)
    requires
        0 <= a <= b,
        enough_steps(a, dx, dy),
    ensures
        enough_steps(b, dx, dy),
{
    assert((a * 65536) * (a * 65536) <= (b * 65536) * (b * 65536)) by (nonlinear_arith)
        requires
            0 <= a <= b,
    ;
}

/// There is one number of steps for a distance, and no other.
pub proof fn lemma_step_count_unique(a: int, b: int, dx: int, dy: int)
    requires
        is_step_count(a, dx, dy),
        is_step_count(b, dx, dy),
    ensures
        a == b,
{
    if a < b {
        if enough_steps(a, dx, dy) {
            lemma_enough_steps_grows(a, b - 1, dx, dy);
        }
    } else if b < a {
        if enough_steps(b, dx, dy) {
            lemma_enough_steps_grows(b, a - 1, dx, dy);
        }
    }
}

/// A point along a segment lies between its ends.
pub proof fn lemma_along_between(from: int, to: int, steps: int, i: int)
    requires
        steps >= 1,
        0 <= i <= steps,
    ensures
        from <= to ==> from <= along(from, to, steps, i) <= to,
        to <= from ==> to <= along(from, to, steps, i) <= from,
        along(from, to, steps, 0) == from,
        along(from, to, steps, steps) == to,
{
    let d = to - from;
    let n = d * i;
    vstd::arithmetic::div_mod::lemma_fundamental_div_mod(n, steps);
    vstd::arithmetic::div_mod::lemma_mod_bound(n, steps);
    let q = n / steps;
    let r = n % steps;
    assert(d >= 0 ==> 0 <= q <= d) by (nonlinear_arith)
        requires
            steps >= 1,
            0 <= i <= steps,
            n == d * i,
            n == steps * q + r,
            0 <= r < steps,
    ;
    assert(d <= 0 ==> d <= q <= 0) by (nonlinear_arith)
        requires
            steps >= 1,
            0 <= i <= steps,
            n == d * i,
            n == steps * q + r,
            0 <= r < steps,
    ;
    assert(d * 0 == 0) by (nonlinear_arith);
    vstd::arithmetic::div_mod::lemma_div_multiples_vanish(d, steps);
    assert(d * steps == steps * d) by (nonlinear_arith);
}

/// A stroke is connected: with enough steps for the distance, each point
/// along the segment lies no more than one pixel from the one before it,
/// along either axis, and so do the pixels that they lie in. `across` is the
/// distance along the other axis.
pub proof fn lemma_stroke_connected(from: int, to: int, across: int, steps: int, i: int)
    requires
        steps >= 1,
        0 <= i < steps,
        enough_steps(steps, to - from, across),
    ensures
        -65536 <= along(from, to, steps, i + 1) - along(from, to, steps, i) <= 65536,
        -1 <= whole_pixel(along(from, to, steps, i + 1)) - whole_pixel(
            along(from, to, steps, i),
        ) <= 1,
{
    let d = to - from;
    let reach = steps * 65536;
    assert(-reach <= d <= reach) by (nonlinear_arith)
        requires
            reach * reach >= d * d + across * across,
            reach >= 0,
    ;
    let a = d * i;
    let b = d * (i + 1);
    assert(b == a + d) by (nonlinear_arith)
        requires
            a == d * i,
            b == d * (i + 1),
    ;
    vstd::arithmetic::div_mod::lemma_fundamental_div_mod(a, steps);
    vstd::arithmetic::div_mod::lemma_fundamental_div_mod(b, steps);
    vstd::arithmetic::div_mod::lemma_mod_bound(a, steps);
    vstd::arithmetic::div_mod::lemma_mod_bound(b, steps);
    let qa = a / steps;
    let qb = b / steps;
    assert(-65536 <= qb - qa <= 65536) by (nonlinear_arith)
        requires
            steps >= 1,
            a == steps * qa + a % steps,
            b == steps * qb + b % steps,
            0 <= a % steps < steps,
            0 <= b % steps < steps,
            b == a + d,
            -(steps * 65536) <= d <= steps * 65536,
    ;
}

/// The number of steps for a stroke segment over the distance `(dx, dy)`.
pub fn stroke_steps(dx: i128, dy: i128) -> (n: i32)
    requires
        -0x1_0000_0000_0000_0000 <= dx <= 0x1_0000_0000_0000_0000,
        -0x1_0000_0000_0000_0000 <= dy <= 0x1_0000_0000_0000_0000,
    ensures
        is_step_count(n as int, dx as int, dy as int),
        n == step_count(dx as int, dy as int),
{
    let far: i128 = 0x8000_0000_0000;
    let n: i32;
    if dx >= far || dx <= -far || dy >= far || dy <= -far {
        proof {
            let m = (i32::MAX - 1) as int;
            assert((m * 65536) * (m * 65536) < 0x8000_0000_0000 * 0x8000_0000_0000)
                by (nonlinear_arith)
                requires
                    m == 0x7fff_fffe,
            ;
            assert(dx * dx + dy * dy >= 0x8000_0000_0000 * 0x8000_0000_0000) by (nonlinear_arith)
                requires
                    dx >= 0x8000_0000_0000 || dx <= -0x8000_0000_0000 || dy >= 0x8000_0000_0000
                        || dy <= -0x8000_0000_0000,
            ;
        }
        n = i32::MAX;
    } else {
        assert(0 <= dx * dx <= 0x8000_0000_0000 * 0x8000_0000_0000) by (nonlinear_arith)
            requires
                -0x8000_0000_0000 < dx < 0x8000_0000_0000,
        ;
        assert(0 <= dy * dy <= 0x8000_0000_0000 * 0x8000_0000_0000) by (nonlinear_arith)
            requires
                -0x8000_0000_0000 < dy < 0x8000_0000_0000,
        ;
        let span: i128 = dx * dx + dy * dy;
        let mut low: i128 = 0;
        let mut high: i128 = i32::MAX as i128;
        while high - low > 1
            invariant
                0 <= low < high <= i32::MAX,
                span == dx * dx + dy * dy,
                low == 0 || !enough_steps(low as int, dx as int, dy as int),
                high == i32::MAX || enough_steps(high as int, dx as int, dy as int),
            decreases high - low,
        {
            let mid: i128 = low + (high - low) / 2;
            assert(0 <= (mid * 65536) * (mid * 65536) <= 0x7fff_ffff_0000 * 0x7fff_ffff_0000)
                by (nonlinear_arith)
                requires
                    0 <= mid <= 0x7fff_ffff,
            ;
            let reach: i128 = (mid * 65536) * (mid * 65536);
            if reach >= span {
                high = mid;
            } else {
                low = mid;
            }
        }
        n = high as i32;
    }
    proof {
        assert(is_step_count(n as int, dx as int, dy as int));
        lemma_step_count_unique(n as int, step_count(dx as int, dy as int), dx as int, dy as int);
    }
    n
}

/// Point `i` of `steps + 1` along the segment from `from` to `to`, along one
/// axis.
pub fn step_along(from: i64, to: i64, steps: i32, i: i32) -> (at: i64)
    requires
        steps >= 1,
        0 <= i <= steps,
    ensures
        at == along(from as int, to as int, steps as int, i as int),
{
    let d: i128 = to as i128 - from as i128;
    assert(-0x1_0000_0000_0000_0000 * 0x8000_0000 <= d * i <= 0x1_0000_0000_0000_0000 * 0x8000_0000)
        by (nonlinear_arith)
        requires
            -0x1_0000_0000_0000_0000 <= d <= 0x1_0000_0000_0000_0000,
            0 <= i <= 0x8000_0000,
    ;
    proof {
        lemma_along_between(from as int, to as int, steps as int, i as int);
    }
    let moved: i128 = match (d * i as i128).checked_div_euclid(steps as i128) {
        Some(q) => q,
        None => 0,
    };
    (from as i128 + moved) as i64
}

/// Whether the pixel with index `p` has had its turn in a dab that has done
/// the rows above `cy + dy` and, of row `cy + dy`, the offsets to the left
/// of `dx`.
pub open spec fn dab_done(
    cx: int,
    cy: int,
    radius: int,
    width: int,
    p: int,
    dy: int,
    dx: int,
) -> bool {
    let column = p % width;
    let row = p / width;
    ||| row - cy < dy && dab_covers(cx, cy, radius, width, column, row)
    ||| row - cy == dy && dab_covers_left_of(cx, cy, radius, width, column, row, dx)
}

/// What one more offset adds to a dab: the pixel it leads to, if it lies in
/// the disk and in one of the rows.
proof fn lemma_dab_step(
    cx: int,
    cy: int,
    radius: int,
    width: int,
    height: int,
    p: int,
    dy: int,
    dx: int,
)
    requires
        width > 0,
        0 <= p < width * height,
    ensures
        dab_done(cx, cy, radius, width, p, dy, dx + 1) == (dab_done(
            cx,
            cy,
            radius,
            width,
            p,
            dy,
            dx,
        ) || (in_disk(dx, dy, radius) && 0 <= cy + dy < height && p == cell(
            cx + dx,
            cy + dy,
            width,
        ))),
{
    lemma_cell_of_index(p, width, height);
    let column = p % width;
    let row = p / width;
    if 0 <= cy + dy < height {
        lemma_cell_range(cx + dx, cy + dy, width, height);
    }
    if dab_done(cx, cy, radius, width, p, dy, dx + 1) {
        if row - cy == dy && dab_covers_left_of(cx, cy, radius, width, column, row, dx + 1) {
            let found = choose|found: int|
                found < dx + 1 && #[trigger] in_disk(found, row - cy, radius) && wrap(
                    cx + found,
                    width,
                ) == column;
            if found < dx {
                assert(dab_covers_left_of(cx, cy, radius, width, column, row, dx));
            } else {
                assert(found == dx);
                vstd::arithmetic::div_mod::lemma_small_mod(column as nat, width as nat);
                assert(wrap(column, width) == column);
                assert(cell(cx + dx, cy + dy, width) == cell(column, row, width));
                assert(p == cell(cx + dx, cy + dy, width));
            }
        }
    }
    if dab_done(cx, cy, radius, width, p, dy, dx) {
        if row - cy == dy && dab_covers_left_of(cx, cy, radius, width, column, row, dx) {
            let found = choose|found: int|
                found < dx && #[trigger] in_disk(found, row - cy, radius) && wrap(
                    cx + found,
                    width,
                ) == column;
            assert(found < dx + 1 && in_disk(found, row - cy, radius));
        }
    }
    if in_disk(dx, dy, radius) && 0 <= cy + dy < height && p == cell(cx + dx, cy + dy, width) {
        assert(dx < dx + 1 && in_disk(dx, row - cy, radius));
    }
}

/// A row of a dab is done when its last offset is.
proof fn lemma_dab_row(cx: int, cy: int, radius: int, width: int, p: int, dy: int)
    requires
        radius >= 0,
    ensures
        dab_done(cx, cy, radius, width, p, dy, radius + 1) == dab_done(
            cx,
            cy,
            radius,
            width,
            p,
            dy + 1,
            -radius,
        ),
{
    let column = p % width;
    let row = p / width;
    if row - cy == dy && dab_covers(cx, cy, radius, width, column, row) {
        let found = choose|found: int| #[trigger]
            in_disk(found, row - cy, radius) && wrap(cx + found, width) == column;
        assert(found < radius + 1 && in_disk(found, row - cy, radius));
    }
    if row - cy == dy && dab_covers_left_of(cx, cy, radius, width, column, row, radius + 1) {
        let found = choose|found: int|
            found < radius + 1 && #[trigger] in_disk(found, row - cy, radius) && wrap(
                cx + found,
                width,
            ) == column;
        assert(in_disk(found, row - cy, radius));
    }
}

/// Before its first row a dab has done nothing, and after its last row it
/// has done all it does.
proof fn lemma_dab_ends(cx: int, cy: int, radius: int, width: int, p: int)
    requires
        radius >= 0,
    ensures
        !dab_done(cx, cy, radius, width, p, -radius, -radius),
        dab_done(cx, cy, radius, width, p, radius + 1, -radius) == dab_covers(
            cx,
            cy,
            radius,
            width,
            p % width,
            p / width,
        ),
{
}

impl BoardView {
    /// The board after a dab of `color` on the drawing layer.
    pub open spec fn after_dab(self, cx: int, cy: int, radius: int, color: Rgba) -> BoardView {
        BoardView {
            drawing: dabbed(self.drawing, self.width as int, cx, cy, radius, color),
            ..self
        }
    }
}

impl Board {
    /// Fills the disk of radius `radius` about the pixel `(cx, cy)` of the
    /// drawing layer with `color`. Columns wrap round the cylinder; what
    /// falls outside the rows is left out.
    pub fn draw_dab(&mut self, cx: i64, cy: i64, radius: u32, color: Rgba)
        requires
            old(self).wf(),
            -0x1_0000_0000_0000 <= cx <= 0x1_0000_0000_0000,
            -0x1_0000_0000_0000 <= cy <= 0x1_0000_0000_0000,
            radius <= i32::MAX,
        ensures
            final(self).wf(),
            final(self)@ == old(self)@.after_dab(cx as int, cy as int, radius as int, color),
    {
        let r: i64 = radius as i64;
        let ghost start = self@;
        let ghost w = start.width as int;
        let ghost h = start.height as int;
        let ghost pixels = w * h;
        assert(0 <= r * r <= 0x7fff_ffff * 0x7fff_ffff) by (nonlinear_arith)
            requires
                0 <= r <= 0x7fff_ffff,
        ;
        assert(start.drawing.len() == 4 * pixels && pixels >= 0) by (nonlinear_arith)
            requires
                start.drawing.len() == w * h * 4,
                pixels == w * h,
                w > 0,
                h > 0,
        ;
        proof {
            assert forall|p: int| 0 <= p < pixels implies #[trigger] pixel_at(self@.drawing, p)
                == if dab_done(cx as int, cy as int, r as int, w, p, -r as int, -r as int) {
                color
            } else {
                pixel_at(start.drawing, p)
            } by {
                lemma_dab_ends(cx as int, cy as int, r as int, w, p);
            }
        }
        let mut dy: i64 = -r;
        while dy <= r
            invariant
                self.wf(),
                -r <= dy <= r + 1,
                0 <= r <= 0x7fff_ffff,
                r == radius,
                0 <= r * r <= 0x7fff_ffff * 0x7fff_ffff,
                -0x1_0000_0000_0000 <= cx <= 0x1_0000_0000_0000,
                -0x1_0000_0000_0000 <= cy <= 0x1_0000_0000_0000,
                start.wf(),
                w == start.width,
                h == start.height,
                pixels == w * h,
                start.drawing.len() == 4 * pixels,
                self@ == (BoardView { drawing: self@.drawing, ..start }),
                forall|p: int|
                    0 <= p < pixels ==> #[trigger] pixel_at(self@.drawing, p) == if dab_done(
                        cx as int,
                        cy as int,
                        r as int,
                        w,
                        p,
                        dy as int,
                        -r as int,
                    ) {
                        color
                    } else {
                        pixel_at(start.drawing, p)
                    },
            decreases r + 1 - dy,
        {
            assert(0 <= dy * dy <= r * r) by (nonlinear_arith)
                requires
                    -r <= dy <= r,
            ;
            let mut dx: i64 = -r;
            while dx <= r
                invariant
                    self.wf(),
                    -r <= dy <= r,
                    -r <= dx <= r + 1,
                    0 <= r <= 0x7fff_ffff,
                    0 <= r * r <= 0x7fff_ffff * 0x7fff_ffff,
                    0 <= dy * dy <= r * r,
                    -0x1_0000_0000_0000 <= cx <= 0x1_0000_0000_0000,
                    -0x1_0000_0000_0000 <= cy <= 0x1_0000_0000_0000,
                    start.wf(),
                    w == start.width,
                    h == start.height,
                    pixels == w * h,
                    start.drawing.len() == 4 * pixels,
                    self@ == (BoardView { drawing: self@.drawing, ..start }),
                    forall|p: int|
                        0 <= p < pixels ==> #[trigger] pixel_at(self@.drawing, p) == if dab_done(
                            cx as int,
                            cy as int,
                            r as int,
                            w,
                            p,
                            dy as int,
                            dx as int,
                        ) {
                            color
                        } else {
                            pixel_at(start.drawing, p)
                        },
                decreases r + 1 - dx,
            {
                assert(0 <= dx * dx <= r * r) by (nonlinear_arith)
                    requires
                        -r <= dx <= r,
                ;
                let ghost before = self@.drawing;
                let inside: bool = dx * dx + dy * dy <= r * r;
                if inside {
                    self.plot(cx + dx, cy + dy, color);
                }
                proof {
                    assert forall|p: int| 0 <= p < pixels implies #[trigger] pixel_at(
                        self@.drawing,
                        p,
                    ) == if dab_done(
                        cx as int,
                        cy as int,
                        r as int,
                        w,
                        p,
                        dy as int,
                        dx + 1,
                    ) {
                        color
                    } else {
                        pixel_at(start.drawing, p)
                    } by {
                        lemma_dab_step(cx as int, cy as int, r as int, w, h, p, dy as int, dx as int);
                        assert(pixel_at(before, p) == if dab_done(
                            cx as int,
                            cy as int,
                            r as int,
                            w,
                            p,
                            dy as int,
                            dx as int,
                        ) {
                            color
                        } else {
                            pixel_at(start.drawing, p)
                        });
                        if inside && 0 <= cy + dy < h {
                            lemma_cell_range(cx + dx, cy + dy, w, h);
                            crate::grid::lemma_pixel_written(
                                before,
                                cell(cx + dx, cy + dy, w),
                                color,
                                p,
                            );
                        }
                    }
                }
                dx = dx + 1;
            }
            proof {
                assert forall|p: int| 0 <= p < pixels implies #[trigger] pixel_at(
                    self@.drawing,
                    p,
                ) == if dab_done(cx as int, cy as int, r as int, w, p, dy + 1, -r as int) {
                    color
                } else {
                    pixel_at(start.drawing, p)
                } by {
                    lemma_dab_row(cx as int, cy as int, r as int, w, p, dy as int);
                }
            }
            dy = dy + 1;
        }
        proof {
            let goal = dabbed(start.drawing, w, cx as int, cy as int, r as int, color);
            assert forall|p: int| 0 <= p < pixels implies #[trigger] pixel_at(self@.drawing, p)
                == pixel_at(goal, p) by {
                lemma_dab_ends(cx as int, cy as int, r as int, w, p);
                assert((4 * p) / 4 == p && (4 * p + 1) / 4 == p && (4 * p + 2) / 4 == p && (4 * p
                    + 3) / 4 == p);
            }
            crate::grid::lemma_same_pixels(self@.drawing, goal, pixels);
        }
    }
}

} // verus!
