//! Posters: images pinned to the board, scaled, and laid over a frame in the
//! order in which they were pinned.

use vstd::prelude::*;
use crate::color::laid_over;
use crate::color::lay_over;
use crate::color::Rgba;
use crate::grid::byte_len;
use crate::grid::get_pixel;
use crate::grid::pixel_at;
use crate::grid::lemma_cell_of_index;
use crate::grid::MAX_DIMENSION;
use crate::paint::in_box;
use crate::paint::paint;
use crate::paint::Shade;
use crate::viewport::clamped;
use crate::viewport::Point;
use crate::viewport::Viewport;

verus! {

/// The smallest scale of a poster: a tenth, rounded up.
pub const SCALE_MIN: u32 = 6554;

/// The largest scale of a poster: ten.
pub const SCALE_MAX: u32 = 655360;

/// An image pinned to the board. `position` is the board position of its top
/// left corner, `image_data` its RGBA bytes, row by row, and `scale` its
/// size on the board relative to the image's own, in 16.16 fixed point.
pub struct PinnedPoster {
    pub position: Point,
    pub image_data: Vec<u8>,
    pub width: u32,
    pub height: u32,
    pub name: String,
    pub scale: u32,
}

/// Where a poster lies on the screen: its top left corner, its size in screen
/// pixels, and the number of image pixels per screen pixel in 16.16 fixed
/// point.
pub struct Placed {
    pub left: int,
    pub top: int,
    pub width: int,
    pub height: int,
    pub inverse: int,
}

/// `Placed`, in machine integers.
#[derive(Clone, Copy, Debug)]
pub struct Placement {
    pub left: i64,
    pub top: i64,
    pub width: i64,
    pub height: i64,
    pub inverse: i64,
}

impl View for Placement {
    type V = Placed;

    open spec fn view(&self) -> Placed {
        Placed {
            left: self.left as int,
            top: self.top as int,
            width: self.width as int,
            height: self.height as int,
            inverse: self.inverse as int,
        }
    }
}

/// The scale of a poster that was pinned without one: one.
pub fn default_scale() -> (scale: u32)
    ensures
        scale == 65536,
{
    65536
}

/// `n / d`, rounded towards zero.
pub open spec fn toward_zero(n: int, d: int) -> int {
    if n >= 0 {
        n / d
    } else {
        -((-n) / d)
    }
}

/// Where an image of `image_width` by `image_height` pixels at the board
/// position `position`, scaled by `scale`, lies on the screen of a camera.
///
/// The horizontal distance from the camera to the poster is taken round the
/// cylinder into `[0, board_width)` and multiplied by the zoom; the vertical
/// distance is multiplied by the zoom and rounded towards zero. The size is
/// the image's size times scale times zoom. The reciprocal of scale times
/// zoom maps screen pixels back to image pixels.
pub open spec fn placed(
    position: Point,
    image_width: int,
    image_height: int,
    scale: int,
    view: Viewport,
    board_width: int,
) -> Placed {
    let zoom = view.zoom as int;
    let dx = (position.x - view.position.x) % (board_width * 65536);
    let dy = position.y - view.position.y;
    Placed {
        left: (dx * zoom) / 0x1_0000_0000,
        top: toward_zero(dy * zoom, 0x1_0000_0000),
        width: (image_width * scale * zoom) / 0x1_0000_0000,
        height: (image_height * scale * zoom) / 0x1_0000_0000,
        inverse: if scale * zoom > 0 {
            0x1_0000_0000_0000int / (scale * zoom)
        } else {
            0
        },
    }
}

impl Placed {
    /// Whether the poster's box misses the screen altogether.
    pub open spec fn off_screen(self, screen_width: int, screen_height: int) -> bool {
        ||| self.left + self.width <= 0
        ||| self.left >= screen_width
        ||| self.top + self.height <= 0
        ||| self.top >= screen_height
    }

    /// The index of the image pixel that the screen pixel `(px, py)` shows,
    /// if it shows one: the screen pixel lies in the poster's box, and the
    /// image pixel it maps back to lies in the image and in its data.
    pub open spec fn source(
        self,
        image_width: int,
        image_height: int,
        image_len: int,
        px: int,
        py: int,
    ) -> Option<int> {
        let ox = px - self.left;
        let oy = py - self.top;
        let u = (ox * self.inverse) / 65536;
        let v = (oy * self.inverse) / 65536;
        if 0 <= ox < self.width && 0 <= oy < self.height && u < image_width && v < image_height
            && 4 * (v * image_width + u) + 3 < image_len {
            Some(v * image_width + u)
        } else {
            None
        }
    }
}

impl PinnedPoster {
    /// Where the poster lies on the screen of a camera.
    pub open spec fn placed(&self, view: Viewport, board_width: int) -> Placed {
        placed(
            self.position,
            self.width as int,
            self.height as int,
            self.scale as int,
            view,
            board_width,
        )
    }

    /// What the screen pixel `(px, py)` shows once the poster lies over
    /// `under`: the image pixel it maps back to, laid over `under` with the
    /// alpha forced to opaque; or `under` itself where the poster does not
    /// reach.
    pub open spec fn pixel_over(
        &self,
        view: Viewport,
        board_width: int,
        px: int,
        py: int,
        under: Rgba,
    ) -> Rgba {
        match self.placed(view, board_width).source(
            self.width as int,
            self.height as int,
            self.image_data@.len() as int,
            px,
            py,
        ) {
            Some(at) => laid_over(pixel_at(self.image_data@, at), under, true),
            None => under,
        }
    }

    /// A frame of rows `screen_width` pixels long once the poster lies over
    /// it.
    pub open spec fn laid_on(
        &self,
        frame: Seq<u8>,
        view: Viewport,
        board_width: int,
        screen_width: int,
    ) -> Seq<u8> {
        Seq::new(
            frame.len(),
            |k: int|
                self.pixel_over(
                    view,
                    board_width,
                    (k / 4) % screen_width,
                    (k / 4) / screen_width,
                    pixel_at(frame, k / 4),
                ).channel(k % 4),
        )
    }

    /// Whether the board position `(x, y)` lies on the poster: in the box
    /// from its corner that is as wide and as high as the scaled image. All
    /// of these are in 16.16 fixed point, so the image's width in pixels
    /// times the scale is the box's width.
    pub open spec fn covers(&self, x: int, y: int) -> bool {
        let w = self.width as int * self.scale as int;
        let h = self.height as int * self.scale as int;
        &&& self.position.x <= x < self.position.x + w
        &&& self.position.y <= y < self.position.y + h
    }

    /// The scale after one notch of the wheel: times 1.1 or times 0.9, held
    /// between `SCALE_MIN` and `SCALE_MAX`.
    pub open spec fn stepped_scale(scale: int, grow: bool) -> int {
        clamped(
            if grow {
                scale * 11 / 10
            } else {
                scale * 9 / 10
            },
            SCALE_MIN as int,
            SCALE_MAX as int,
        )
    }

    /// Whether the board position `point` lies on the poster.
    pub fn contains(&self, point: Point) -> (inside: bool)
        ensures
            inside == self.covers(point.x as int, point.y as int),
    {
        assert(0 <= self.width as int * self.scale as int <= 0xffff_ffff * 0xffff_ffff)
            by (nonlinear_arith)
            requires
                0 <= self.width as int <= 0xffff_ffff,
                0 <= self.scale as int <= 0xffff_ffff,
        ;
        assert(0 <= self.height as int * self.scale as int <= 0xffff_ffff * 0xffff_ffff)
            by (nonlinear_arith)
            requires
                0 <= self.height as int <= 0xffff_ffff,
                0 <= self.scale as int <= 0xffff_ffff,
        ;
        let w: i128 = self.width as i128 * self.scale as i128;
        let h: i128 = self.height as i128 * self.scale as i128;
        let x: i128 = point.x as i128;
        let y: i128 = point.y as i128;
        let left: i128 = self.position.x as i128;
        let top: i128 = self.position.y as i128;
        x >= left && x < left + w && y >= top && y < top + h
    }

    /// Scales the poster by one notch of the wheel, up or down.
    pub fn rescale(&mut self, grow: bool)
        ensures
            final(self).scale == PinnedPoster::stepped_scale(old(self).scale as int, grow),
            final(self).position == old(self).position,
            final(self).image_data == old(self).image_data,
            final(self).width == old(self).width,
            final(self).height == old(self).height,
            final(self).name == old(self).name,
    {
        let stepped: u64 = if grow {
            self.scale as u64 * 11 / 10
        } else {
            self.scale as u64 * 9 / 10
        };
        self.scale = if stepped < SCALE_MIN as u64 {
            SCALE_MIN
        } else if stepped > SCALE_MAX as u64 {
            SCALE_MAX
        } else {
            stepped as u32
        };
    }

    /// Works out where the poster lies on the screen of a camera.
    pub fn place(&self, view: &Viewport, board_width: u32) -> (at: Placement)
        requires
            view.wf(),
            0 < board_width <= MAX_DIMENSION,
        ensures
            at@ == self.placed(*view, board_width as int),
            0 <= at.left <= 0x4_0000,
            0 <= at.width <= 0x2_0000_0000_0000,
            0 <= at.height <= 0x2_0000_0000_0000,
            0 <= at.inverse <= 0x1_0000_0000_0000,
            -0x4_0000_0000_0000 <= at.top <= 0x4_0000_0000_0000,
    {
        let zoom: i128 = view.zoom as i128;
        let period: i128 = board_width as i128 * 65536;
        let gap: i128 = self.position.x as i128 - view.position.x as i128;
        let dx: i128 = match gap.checked_rem_euclid(period) {
            Some(r) => r,
            None => 0,
        };
        let dy: i128 = self.position.y as i128 - view.position.y as i128;
        proof {
            vstd::arithmetic::div_mod::lemma_mod_bound(gap as int, period as int);
            assert(0 <= dx * zoom <= 6553600000 * 98304) by (nonlinear_arith)
                requires
                    0 <= dx < 6553600000,
                    0 <= zoom <= 98304,
            ;
            assert(-0x1_0000_0000_0000_0000 * 98304 <= dy * zoom <= 0x1_0000_0000_0000_0000 * 98304)
                by (nonlinear_arith)
                requires
                    -0x1_0000_0000_0000_0000 <= dy <= 0x1_0000_0000_0000_0000,
                    0 <= zoom <= 98304,
            ;
            assert(0 <= self.width as int * self.scale as int <= 0xffff_ffff * 0xffff_ffff)
                by (nonlinear_arith)
                requires
                    0 <= self.width as int <= 0xffff_ffff,
                    0 <= self.scale as int <= 0xffff_ffff,
            ;
            assert(0 <= self.height as int * self.scale as int <= 0xffff_ffff * 0xffff_ffff)
                by (nonlinear_arith)
                requires
                    0 <= self.height as int <= 0xffff_ffff,
                    0 <= self.scale as int <= 0xffff_ffff,
            ;
            assert(0 <= (self.width as int * self.scale as int) * zoom <= 0xffff_ffff * 0xffff_ffff
                * 98304) by (nonlinear_arith)
                requires
                    0 <= self.width as int * self.scale as int <= 0xffff_ffff * 0xffff_ffff,
                    0 <= zoom <= 98304,
            ;
            assert(0 <= (self.height as int * self.scale as int) * zoom <= 0xffff_ffff
                * 0xffff_ffff * 98304) by (nonlinear_arith)
                requires
                    0 <= self.height as int * self.scale as int <= 0xffff_ffff * 0xffff_ffff,
                    0 <= zoom <= 98304,
            ;
            assert(0 <= self.scale as int * zoom <= 0xffff_ffff * 98304) by (nonlinear_arith)
                requires
                    0 <= self.scale as int <= 0xffff_ffff,
                    0 <= zoom <= 98304,
            ;
        }
        let left: i128 = dx * zoom / 0x1_0000_0000;
        let top: i128 = dy * zoom / 0x1_0000_0000;
        let width: i128 = self.width as i128 * self.scale as i128 * zoom / 0x1_0000_0000;
        let height: i128 = self.height as i128 * self.scale as i128 * zoom / 0x1_0000_0000;
        let ratio: i128 = self.scale as i128 * zoom;
        let inverse: i128 = if ratio > 0 {
            0x1_0000_0000_0000i128 / ratio
        } else {
            0
        };
        proof {
            if ratio > 0 {
                vstd::arithmetic::div_mod::lemma_div_is_ordered_by_denominator(
                    0x1_0000_0000_0000,
                    1,
                    ratio as int,
                );
                vstd::arithmetic::div_mod::lemma_div_pos_is_pos(0x1_0000_0000_0000, ratio as int);
            }
        }
        Placement {
            left: left as i64,
            top: top as i64,
            width: width as i64,
            height: height as i64,
            inverse: inverse as i64,
        }
    }
}

/// A poster whose box misses the screen leaves every frame for that screen
/// as it is.
pub proof fn lemma_off_screen_poster(
    poster: PinnedPoster,
    frame: Seq<u8>,
    view: Viewport,
    board_width: int,
    screen_width: int,
    screen_height: int,
)
    requires
        screen_width >= 0,
        screen_height >= 0,
        frame.len() == byte_len(screen_width, screen_height),
        poster.placed(view, board_width).off_screen(screen_width, screen_height),
    ensures
        poster.laid_on(frame, view, board_width, screen_width) == frame,
{
    let after = poster.laid_on(frame, view, board_width, screen_width);
    let at = poster.placed(view, board_width);
    assert forall|k: int| 0 <= k < frame.len() implies after[k] == frame[k] by {
        let p = k / 4;
        assert(k == 4 * p + k % 4);
        assert(screen_width > 0) by (nonlinear_arith)
            requires
                0 <= k < screen_width * screen_height * 4,
                screen_width >= 0,
                screen_height >= 0,
        ;
        assert(0 <= p < screen_width * screen_height);
        lemma_cell_of_index(p, screen_width, screen_height);
        let px = p % screen_width;
        let py = p / screen_width;
        assert(at.source(
            poster.width as int,
            poster.height as int,
            poster.image_data@.len() as int,
            px,
            py,
        ) is None);
    }
    assert(after =~= frame);
}

/// The part of a poster that shows on the screen, as a shade: the box
/// begins `skip` rows below the poster's top, and each of its pixels shows
/// the image pixel that it maps back to, laid over what is there, opaque.
pub struct Showing<'a> {
    pub poster: &'a PinnedPoster,
    pub inverse: i64,
    pub skip: i64,
}

impl<'a> Shade for Showing<'a> {
    open spec fn ready(&self) -> bool {
        &&& 0 <= self.inverse <= 0x1_0000_0000_0000
        &&& 0 <= self.skip <= 0x4_0000_0000_0000
    }

    open spec fn shaded(&self, ox: int, oy: int, under: Rgba) -> Rgba {
        let u = (ox * self.inverse) / 65536;
        let v = ((oy + self.skip) * self.inverse) / 65536;
        if u < self.poster.width && v < self.poster.height && 4 * (v * self.poster.width + u) + 3
            < self.poster.image_data@.len() {
            laid_over(pixel_at(self.poster.image_data@, v * self.poster.width + u), under, true)
        } else {
            under
        }
    }

    fn shade(&self, ox: u32, oy: u32, under: Rgba) -> (c: Rgba) {
        let image_width: i128 = self.poster.width as i128;
        let row: i128 = oy as i128 + self.skip as i128;
        assert(0 <= ox * self.inverse <= 0x1_0000_0000 * 0x1_0000_0000_0000) by (nonlinear_arith)
            requires
                0 <= ox <= 0x1_0000_0000,
                0 <= self.inverse <= 0x1_0000_0000_0000,
        ;
        assert(0 <= row * self.inverse <= 0x8_0000_0000_0000 * 0x1_0000_0000_0000)
            by (nonlinear_arith)
            requires
                0 <= row <= 0x8_0000_0000_0000,
                0 <= self.inverse <= 0x1_0000_0000_0000,
        ;
        let u: i128 = (ox as i128 * self.inverse as i128) / 65536;
        let v: i128 = (row * self.inverse as i128) / 65536;
        if u < image_width && v < self.poster.height as i128 {
            assert(0 <= v * image_width <= 0xffff_ffff * 0xffff_ffff) by (nonlinear_arith)
                requires
                    0 <= v <= 0xffff_ffff,
                    0 <= image_width <= 0xffff_ffff,
            ;
            let source: i128 = v * image_width + u;
            if 4 * source + 3 < self.poster.image_data.len() as i128 {
                return lay_over(
                    get_pixel(self.poster.image_data.as_slice(), source as usize),
                    under,
                    true,
                );
            }
        }
        under
    }
}

/// Lays one poster over a frame, for the camera `view` on a board
/// `board_width` pixels wide. A poster whose box misses the screen is passed
/// over; of any other only the part on the screen is gone through.
pub fn lay_poster(
    poster: &PinnedPoster,
    view: &Viewport,
    board_width: u32,
    frame: &mut [u8],
    screen_width: u32,
    screen_height: u32,
)
    requires
        view.wf(),
        0 < board_width <= MAX_DIMENSION,
        old(frame)@.len() == byte_len(screen_width as int, screen_height as int),
    ensures
        final(frame)@ == poster.laid_on(
            old(frame)@,
            *view,
            board_width as int,
            screen_width as int,
        ),
{
    let at: Placement = poster.place(view, board_width);
    if at.left + at.width < 0 || at.left >= screen_width as i64 || at.top + at.height < 0 || at.top
        >= screen_height as i64 {
        proof {
            lemma_off_screen_poster(
                *poster,
                frame@,
                *view,
                board_width as int,
                screen_width as int,
                screen_height as int,
            );
        }
        return ;
    }
    let skip: i64 = if at.top < 0 {
        -at.top
    } else {
        0
    };
    let across: i64 = if at.width < screen_width as i64 - at.left {
        at.width
    } else {
        screen_width as i64 - at.left
    };
    let below: i64 = if at.height < screen_height as i64 - at.top {
        at.height
    } else {
        screen_height as i64 - at.top
    };
    let down: i64 = if below > skip {
        below - skip
    } else {
        0
    };
    let showing = Showing { poster, inverse: at.inverse, skip };
    paint(frame, screen_width, at.left, at.top + skip, across as u32, down as u32, &showing);
    proof {
        let before = old(frame)@;
        let width = screen_width as int;
        let goal = poster.laid_on(before, *view, board_width as int, width);
        let pixels = screen_width as int * screen_height as int;
        let total = before.len() as int;
        assert(total == 4 * pixels && pixels >= 0) by (nonlinear_arith)
            requires
                total == screen_width * screen_height * 4,
                pixels == screen_width * screen_height,
                screen_width >= 0,
                screen_height >= 0,
        ;
        assert forall|k: int| 0 <= k < before.len() implies frame@[k] == goal[k] by {
            let p = k / 4;
            assert(k == 4 * p + k % 4);
            lemma_cell_of_index(p, width, screen_height as int);
            let px = p % width;
            let py = p / width;
            let under = pixel_at(before, p);
            let inside = in_box(
                total,
                width,
                at.left as int,
                at.top + skip,
                across as int,
                down as int,
                p,
            );
            let source = at@.source(
                poster.width as int,
                poster.height as int,
                poster.image_data@.len() as int,
                px,
                py,
            );
            if inside {
                assert(showing.shaded(px - at.left, py - (at.top + skip), under)
                    == poster.pixel_over(*view, board_width as int, px, py, under));
            } else {
                assert(source is None);
            }
        }
        assert(frame@ =~= goal);
    }
}

/// A frame once the first `n` of `posters` lie over it, one after the other.
pub open spec fn with_posters(
    frame: Seq<u8>,
    posters: Seq<PinnedPoster>,
    n: int,
    view: Viewport,
    board_width: int,
    screen_width: int,
) -> Seq<u8>
    decreases n,
{
    if n <= 0 {
        frame
    } else {
        posters[n - 1].laid_on(
            with_posters(frame, posters, n - 1, view, board_width, screen_width),
            view,
            board_width,
            screen_width,
        )
    }
}

/// Lays the posters over a frame in their order, so that a later one lies on
/// top of an earlier one.
pub fn render_posters(
    posters: &Vec<PinnedPoster>,
    view: &Viewport,
    board_width: u32,
    frame: &mut [u8],
    screen_width: u32,
    screen_height: u32,
)
    requires
        view.wf(),
        0 < board_width <= MAX_DIMENSION,
        old(frame)@.len() == byte_len(screen_width as int, screen_height as int),
    ensures
        final(frame)@ == with_posters(
            old(frame)@,
            posters@,
            posters@.len() as int,
            *view,
            board_width as int,
            screen_width as int,
        ),
{
    let mut i: usize = 0;
    while i < posters.len()
        invariant
            view.wf(),
            0 < board_width <= MAX_DIMENSION,
            i <= posters@.len(),
            frame@.len() == byte_len(screen_width as int, screen_height as int),
            frame@ == with_posters(
                old(frame)@,
                posters@,
                i as int,
                *view,
                board_width as int,
                screen_width as int,
            ),
        decreases posters@.len() - i,
    {
        lay_poster(&posters[i], view, board_width, frame, screen_width, screen_height);
        i = i + 1;
    }
}

/// Finds the topmost poster at a board position.
pub fn find_poster_at(posters: &Vec<PinnedPoster>, point: Point) -> (found: Option<usize>)
    ensures
        match found {
            Some(i) => {
                &&& i < posters@.len()
                &&& posters@[i as int].covers(point.x as int, point.y as int)
                &&& forall|j: int|
                    i < j < posters@.len() ==> !(#[trigger] posters@[j]).covers(
                        point.x as int,
                        point.y as int,
                    )
            },
            None => forall|j: int|
                0 <= j < posters@.len() ==> !(#[trigger] posters@[j]).covers(
                    point.x as int,
                    point.y as int,
                ),
        },
{
    let mut i: usize = posters.len();
    while i > 0
        invariant
            i <= posters@.len(),
            forall|j: int|
                i <= j < posters@.len() ==> !(#[trigger] posters@[j]).covers(
                    point.x as int,
                    point.y as int,
                ),
        decreases i,
    {
        i = i - 1;
        if posters[i].contains(point) {
            return Some(i);
        }
    }
    None
}

} // verus!
