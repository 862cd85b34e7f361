//! Addressing of a cylindrical pixel grid stored as RGBA bytes, row by row.

use vstd::prelude::*;
use crate::color::Rgba;

verus! {

/// The largest width and the largest height of a board, in pixels.
pub const MAX_DIMENSION: u32 = 100_000;

/// Bytes per pixel.
pub const PIXEL_SIZE: usize = 4;

/// Whether `width` and `height` are the dimensions of a board.
pub open spec fn valid_dimensions(width: int, height: int) -> bool {
    0 < width <= MAX_DIMENSION && 0 < height <= MAX_DIMENSION
}

/// The number of bytes that a grid of `width` by `height` pixels takes.
pub open spec fn byte_len(width: int, height: int) -> int {
    width * height * 4
}

/// The column that a horizontal coordinate of either sign falls on: the
/// remainder of the division by the width that is never negative.
pub open spec fn wrap(x: int, width: int) -> int {
    x % width
}

/// The index, counted in pixels, of the pixel in column `wrap(x, width)` of
/// row `y`.
pub open spec fn cell(x: int, y: int, width: int) -> int {
    y * width + wrap(x, width)
}

/// The pixel with index `index` of a buffer.
pub open spec fn pixel_at(buf: Seq<u8>, index: int) -> Rgba {
    Rgba { r: buf[4 * index], g: buf[4 * index + 1], b: buf[4 * index + 2], a: buf[4 * index + 3] }
}

/// The buffer with the pixel with index `index` replaced by `c`.
pub open spec fn with_pixel(buf: Seq<u8>, index: int, c: Rgba) -> Seq<u8> {
    buf.update(4 * index, c.r).update(4 * index + 1, c.g).update(4 * index + 2, c.b).update(
        4 * index + 3,
        c.a,
    )
}

/// What is seen at `(x, y)` of a grid: the pixel of column `wrap(x, width)`
/// where `y` is one of the rows, and `outside` where it is not.
pub open spec fn sample(buf: Seq<u8>, width: int, height: int, x: int, y: int, outside: Rgba) -> Rgba {
    if 0 <= y < height {
        pixel_at(buf, cell(x, y, width))
    } else {
        outside
    }
}

/// The grid after `c` is written at `(x, y)`: nothing changes where `y` is not
/// one of the rows.
pub open spec fn written(buf: Seq<u8>, width: int, height: int, x: int, y: int, c: Rgba) -> Seq<u8> {
    if 0 <= y < height {
        with_pixel(buf, cell(x, y, width), c)
    } else {
        buf
    }
}

/// A buffer of `pixels` pixels, each of them `c`.
pub open spec fn filled(pixels: int, c: Rgba) -> Seq<u8> {
    Seq::new((4 * pixels) as nat, |i: int| c.channel(i % 4))
}

/// The number of pixels among the first `n` whose alpha is not zero.
pub open spec fn ink_upto(buf: Seq<u8>, n: int) -> int
    decreases n,
{
    if n <= 0 {
        0
    } else {
        ink_upto(buf, n - 1) + if buf[4 * (n - 1) + 3] != 0 {
            1int
        } else {
            0int
        }
    }
}

/// The number of pixels of a buffer whose alpha is not zero.
pub open spec fn ink(buf: Seq<u8>) -> int {
    ink_upto(buf, buf.len() as int / 4)
}

pub proof fn lemma_wrap_range(x: int, width: int)
    requires
        width > 0,
    ensures
        0 <= wrap(x, width) < width,
{
    vstd::arithmetic::div_mod::lemma_mod_bound(x, width);
}

/// Horizontal periodicity: a whole number of turns round the cylinder leads to
/// the same column.
pub proof fn lemma_wrap_periodic(x: int, k: int, width: int)
    requires
        width > 0,
    ensures
        wrap(x + k * width, width) == wrap(x, width),
{
    vstd::arithmetic::div_mod::lemma_mod_multiples_vanish(k, x, width);
    assert(width * k + x == x + k * width) by (nonlinear_arith);
}

pub proof fn lemma_cell_range(x: int, y: int, width: int, height: int)
    requires
        width > 0,
        0 <= y < height,
    ensures
        0 <= cell(x, y, width) < width * height,
        cell(x, y, width) / width == y,
        cell(x, y, width) % width == wrap(x, width),
{
    lemma_wrap_range(x, width);
    let c = wrap(x, width);
    assert(0 <= y * width && y * width + width <= height * width && height * width == width * height)
        by (nonlinear_arith)
        requires
            width > 0,
            0 <= y < height,
    ;
    vstd::arithmetic::div_mod::lemma_fundamental_div_mod_converse(y * width + c, width, y, c);
}

/// A cell is the cell of its own column and row.
pub proof fn lemma_cell_of_index(p: int, width: int, height: int)
    requires
        width > 0,
        0 <= p < width * height,
    ensures
        0 <= p / width < height,
        0 <= p % width < width,
        cell(p % width, p / width, width) == p,
{
    vstd::arithmetic::div_mod::lemma_fundamental_div_mod(p, width);
    vstd::arithmetic::div_mod::lemma_mod_bound(p, width);
    let q = p / width;
    let r = p % width;
    assert(0 <= q < height && q * width == width * q) by (nonlinear_arith)
        requires
            width > 0,
            0 <= p < width * height,
            p == width * q + r,
            0 <= r < width,
    ;
    vstd::arithmetic::div_mod::lemma_small_mod(r as nat, width as nat);
}

pub proof fn lemma_pixel_written(buf: Seq<u8>, index: int, c: Rgba, other: int)
    requires
        0 <= index,
        4 * index + 4 <= buf.len(),
        0 <= other,
        4 * other + 4 <= buf.len(),
    ensures
        with_pixel(buf, index, c).len() == buf.len(),
        pixel_at(with_pixel(buf, index, c), other) == if other == index {
            c
        } else {
            pixel_at(buf, other)
        },
{
}

/// Horizontal periodicity: what is written at `(x, y)` is read at
/// `(x + k * width, y)`, for every whole `k`, where `y` is one of the rows.
pub proof fn lemma_write_then_read(
    buf: Seq<u8>,
    width: int,
    height: int,
    x: int,
    y: int,
    k: int,
    c: Rgba,
    outside: Rgba,
)
    requires
        width > 0,
        buf.len() == byte_len(width, height),
        0 <= y < height,
    ensures
        sample(written(buf, width, height, x, y, c), width, height, x + k * width, y, outside)
            == c,
{
    lemma_wrap_periodic(x, k, width);
    lemma_cell_range(x, y, width, height);
}

/// Two buffers that hold the same pixels are the same.
pub proof fn lemma_same_pixels(frame: Seq<u8>, goal: Seq<u8>, pixels: int)
    requires
        pixels >= 0,
        frame.len() == 4 * pixels,
        goal.len() == 4 * pixels,
        forall|p: int| 0 <= p < pixels ==> #[trigger] pixel_at(frame, p) == pixel_at(goal, p),
    ensures
        frame == goal,
{
    assert forall|k: int| 0 <= k < frame.len() implies frame[k] == goal[k] by {
        let p = k / 4;
        assert(pixel_at(frame, p) == pixel_at(goal, p));
        assert(k == 4 * p + k % 4);
    }
    assert(frame =~= goal);
}

pub proof fn lemma_ink_upto_range(buf: Seq<u8>, n: int)
    requires
        0 <= n,
    ensures
        0 <= ink_upto(buf, n) <= n,
    decreases n,
{
    if n > 0 {
        lemma_ink_upto_range(buf, n - 1);
    }
}

/// The count is zero exactly when every pixel is fully transparent.
pub proof fn lemma_ink_upto_zero(buf: Seq<u8>, n: int)
    requires
        0 <= n,
    ensures
        ink_upto(buf, n) == 0 <==> forall|p: int| 0 <= p < n ==> #[trigger] buf[4 * p + 3] == 0,
    decreases n,
{
    if n > 0 {
        lemma_ink_upto_zero(buf, n - 1);
        lemma_ink_upto_range(buf, n - 1);
        if ink_upto(buf, n) == 0 {
            assert forall|p: int| 0 <= p < n implies #[trigger] buf[4 * p + 3] == 0 by {
                if p < n - 1 {
                } else {
                    assert(p == n - 1);
                }
            }
        } else {
            if forall|p: int| 0 <= p < n ==> #[trigger] buf[4 * p + 3] == 0 {
                assert(buf[4 * (n - 1) + 3] == 0);
                assert(forall|p: int| 0 <= p < n - 1 ==> #[trigger] buf[4 * p + 3] == 0);
            }
        }
    }
}

/// Writing one pixel changes the count by one where ink appears or goes, and
/// not at all otherwise.
pub proof fn lemma_ink_upto_written(buf: Seq<u8>, index: int, c: Rgba, n: int)
    requires
        0 <= index,
        0 <= n,
        4 * n <= buf.len(),
        4 * index + 4 <= buf.len(),
    ensures
        ink_upto(with_pixel(buf, index, c), n) == ink_upto(buf, n) + if index < n {
            (if c.a != 0 {
                1int
            } else {
                0int
            }) - (if buf[4 * index + 3] != 0 {
                1int
            } else {
                0int
            })
        } else {
            0int
        },
    decreases n,
{
    if n > 0 {
        lemma_ink_upto_written(buf, index, c, n - 1);
    }
}

pub proof fn lemma_ink_filled(pixels: int, c: Rgba, n: int)
    requires
        0 <= n <= pixels,
    ensures
        ink_upto(filled(pixels, c), n) == if c.a != 0 {
            n
        } else {
            0
        },
    decreases n,
{
    if n > 0 {
        lemma_ink_filled(pixels, c, n - 1);
        assert((4 * (n - 1) + 3) % 4 == 3);
    }
}

/// The index of the pixel at `(x, y)`, or `None` where `y` is not one of the
/// rows. The column wraps round; the row does not.
pub fn locate(x: i64, y: i64, width: u32, height: u32) -> (r: Option<usize>)
    requires
        width > 0,
        byte_len(width as int, height as int) <= usize::MAX,
    ensures
        r is Some <==> 0 <= y < height,
        r is Some ==> r.unwrap() == cell(x as int, y as int, width as int),
        r is Some ==> 4 * r.unwrap() + 4 <= byte_len(width as int, height as int),
{
    if y < 0 || y >= height as i64 {
        return None;
    }
    let column: i64 = match x.checked_rem_euclid(width as i64) {
        Some(c) => c,
        None => 0,
    };
    proof {
        lemma_cell_range(x as int, y as int, width as int, height as int);
        assert(y * width <= width * height) by (nonlinear_arith)
            requires
                0 <= y < height,
                width > 0,
        ;
    }
    Some((y as usize) * (width as usize) + (column as usize))
}

/// Reads the pixel with index `index`.
pub fn get_pixel(buf: &[u8], index: usize) -> (c: Rgba)
    requires
        4 * index + 4 <= buf@.len(),
    ensures
        c == pixel_at(buf@, index as int),
{
    assert(buf@.len() == buf.len());
    let at: usize = 4 * index;
    Rgba { r: buf[at], g: buf[at + 1], b: buf[at + 2], a: buf[at + 3] }
}

/// Writes the pixel with index `index`.
pub fn set_pixel(buf: &mut [u8], index: usize, c: Rgba)
    requires
        4 * index + 4 <= old(buf)@.len(),
    ensures
        final(buf)@ == with_pixel(old(buf)@, index as int, c),
{
    assert(buf@.len() == buf.len());
    let at: usize = 4 * index;
    buf[at] = c.r;
    buf[at + 1] = c.g;
    buf[at + 2] = c.b;
    buf[at + 3] = c.a;
}

/// A new buffer of `pixels` pixels, each of them `c`.
pub fn new_filled(pixels: usize, c: Rgba) -> (buf: Vec<u8>)
    requires
        4 * pixels <= usize::MAX,
    ensures
        buf@ == filled(pixels as int, c),
{
    let mut buf: Vec<u8> = vec![c.a; 4 * pixels];
    let mut p: usize = 0;
    while p < pixels
        invariant
            p <= pixels,
            4 * pixels <= usize::MAX,
            buf@.len() == 4 * pixels,
            forall|i: int| 0 <= i < 4 * p ==> buf@[i] == filled(pixels as int, c)[i],
            forall|i: int| 4 * p <= i < 4 * pixels ==> buf@[i] == c.a,
        decreases pixels - p,
    {
        buf[4 * p] = c.r;
        buf[4 * p + 1] = c.g;
        buf[4 * p + 2] = c.b;
        p = p + 1;
    }
    assert(buf@ =~= filled(pixels as int, c));
    buf
}

/// Sets every pixel of a buffer to `c`.
pub fn fill(buf: &mut [u8], c: Rgba)
    requires
        old(buf)@.len() % 4 == 0,
    ensures
        final(buf)@ == filled(old(buf)@.len() as int / 4, c),
{
    let pixels: usize = buf.len() / 4;
    let mut p: usize = 0;
    while p < pixels
        invariant
            p <= pixels,
            buf@.len() == 4 * pixels,
            4 * pixels <= usize::MAX,
            forall|i: int| 0 <= i < 4 * p ==> buf@[i] == filled(pixels as int, c)[i],
        decreases pixels - p,
    {
        buf[4 * p] = c.r;
        buf[4 * p + 1] = c.g;
        buf[4 * p + 2] = c.b;
        buf[4 * p + 3] = c.a;
        p = p + 1;
    }
    assert(buf@ =~= filled(pixels as int, c));
}

/// Counts the pixels of a buffer whose alpha is not zero.
pub fn count_ink(buf: &[u8]) -> (n: usize)
    ensures
        n == ink(buf@),
{
    let pixels: usize = buf.len() / 4;
    let mut n: usize = 0;
    let mut p: usize = 0;
    while p < pixels
        invariant
            p <= pixels,
            pixels == buf@.len() / 4,
            buf@.len() <= usize::MAX,
            n == ink_upto(buf@, p as int),
            n <= p,
        decreases pixels - p,
    {
        if buf[4 * p + 3] != 0 {
            n = n + 1;
        }
        p = p + 1;
    }
    n
}

} // verus!
