//! The viewport renderer: the part of the background that the camera shows,
//! as a screen-sized frame.

use vstd::prelude::*;
use crate::color::Rgba;
use crate::grid::byte_len;
use crate::grid::get_pixel;
use crate::grid::locate;
use crate::grid::sample;
use crate::grid::set_pixel;
use crate::parallel::run_rows;
use crate::parallel::RowKernel;
use crate::viewport::projected;
use crate::viewport::reciprocal;
use crate::viewport::Viewport;

verus! {

/// The board pixel along one axis under screen pixel `s`, for a camera
/// coordinate `origin` and the reciprocal zoom `inverse`.
pub fn project(origin: i64, s: u32, inverse: i64) -> (p: i64)
    requires
        0 <= inverse <= 0x10_0000,
    ensures
        p == projected(origin as int, s as int, inverse as int),
{
    assert(0 <= s * inverse <= 0x10_0000_0000_0000) by (nonlinear_arith)
        requires
            0 <= s <= 0xffff_ffff,
            0 <= inverse <= 0x10_0000,
    ;
    let at: i128 = origin as i128 + (s as i128) * (inverse as i128);
    match at.checked_div_euclid(65536) {
        Some(p) => p as i64,
        None => 0,
    }
}

/// What the screen pixel `(sx, sy)` shows of a background: the board pixel
/// under it, its column wrapped round the cylinder, or opaque black where
/// the row is outside the board.
pub open spec fn rendered_pixel(
    background: Seq<u8>,
    width: int,
    height: int,
    view: Viewport,
    sx: int,
    sy: int,
) -> Rgba {
    let inverse = reciprocal(view.zoom as int);
    sample(
        background,
        width,
        height,
        projected(view.position.x as int, sx, inverse),
        projected(view.position.y as int, sy, inverse),
        Rgba::spec_black(),
    )
}

/// Row `sy` of the frame, `screen_width` pixels long.
pub open spec fn rendered_row(
    background: Seq<u8>,
    width: int,
    height: int,
    view: Viewport,
    screen_width: int,
    sy: int,
) -> Seq<u8> {
    Seq::new(
        (4 * screen_width) as nat,
        |j: int| rendered_pixel(background, width, height, view, j / 4, sy).channel(j % 4),
    )
}

/// The frame of `screen_width` by `screen_height` pixels that a camera shows
/// of a background, rows from the top and each row from the left.
pub open spec fn rendered(
    background: Seq<u8>,
    width: int,
    height: int,
    view: Viewport,
    screen_width: int,
    screen_height: int,
) -> Seq<u8> {
    Seq::new(
        byte_len(screen_width, screen_height) as nat,
        |k: int|
            rendered_pixel(
                background,
                width,
                height,
                view,
                (k / 4) % screen_width,
                (k / 4) / screen_width,
            ).channel(k % 4),
    )
}

/// Where byte `k` of a frame lies: its pixel's column and row, and its place
/// in its row.
pub proof fn lemma_frame_byte(k: int, screen_width: int)
    requires
        screen_width > 0,
        0 <= k,
    ensures
        k / (4 * screen_width) == (k / 4) / screen_width,
        (k % (4 * screen_width)) / 4 == (k / 4) % screen_width,
        (k % (4 * screen_width)) % 4 == k % 4,
        k / 4 == (k / (4 * screen_width)) * screen_width + (k % (4 * screen_width)) / 4,
{
    vstd::arithmetic::div_mod::lemma_div_denominator(k, 4, screen_width);
    vstd::arithmetic::div_mod::lemma_breakdown(k, 4, screen_width);
    let low = k % 4;
    let mid = (k / 4) % screen_width;
    assert(k % (4 * screen_width) == 4 * mid + low);
    vstd::arithmetic::div_mod::lemma_mod_bound(k / 4, screen_width);
    vstd::arithmetic::div_mod::lemma_fundamental_div_mod(k / 4, screen_width);
    assert(screen_width * ((k / 4) / screen_width) == ((k / 4) / screen_width) * screen_width)
        by (nonlinear_arith);
}

/// The work on one row of the frame.
pub(crate) struct RenderKernel<'a> {
    pub(crate) background: &'a [u8],
    pub(crate) width: u32,
    pub(crate) height: u32,
    pub(crate) view: Viewport,
    pub(crate) inverse: i64,
    pub(crate) screen_width: u32,
    pub(crate) screen_height: u32,
}

impl<'a> RowKernel for RenderKernel<'a> {
    open spec fn ready(&self) -> bool {
        &&& self.width > 0
        &&& self.background@.len() == byte_len(self.width as int, self.height as int)
        &&& self.view.wf()
        &&& self.inverse == reciprocal(self.view.zoom as int)
        &&& 0 <= self.inverse <= 0x10_0000
        &&& self.screen_width > 0
        &&& 4 * self.screen_width <= usize::MAX
    }

    open spec fn row_len(&self) -> nat {
        (4 * self.screen_width) as nat
    }

    open spec fn rows(&self) -> nat {
        self.screen_height as nat
    }

    open spec fn row_after(&self, index: int, before: Seq<u8>) -> Seq<u8> {
        rendered_row(
            self.background@,
            self.width as int,
            self.height as int,
            self.view,
            self.screen_width as int,
            index,
        )
    }

    fn apply(&self, index: usize, row: &mut [u8]) {
        assert(self.background@.len() == self.background.len());
        let board_y: i64 = project(self.view.position.y, index as u32, self.inverse);
        let ghost goal = self.row_after(index as int, old(row)@);
        let mut sx: u32 = 0;
        while sx < self.screen_width
            invariant
                self.ready(),
                index < self.rows(),
                sx <= self.screen_width,
                row@.len() == 4 * self.screen_width,
                self.background@.len() <= usize::MAX,
                board_y == projected(
                    self.view.position.y as int,
                    index as int,
                    self.inverse as int,
                ),
                goal == self.row_after(index as int, old(row)@),
                forall|j: int| 0 <= j < 4 * sx ==> row@[j] == goal[j],
            decreases self.screen_width - sx,
        {
            let board_x: i64 = project(self.view.position.x, sx, self.inverse);
            let shown: Rgba = match locate(board_x, board_y, self.width, self.height) {
                Some(at) => get_pixel(self.background, at),
                None => Rgba::black(),
            };
            assert(shown == rendered_pixel(
                self.background@,
                self.width as int,
                self.height as int,
                self.view,
                sx as int,
                index as int,
            ));
            set_pixel(row, sx as usize, shown);
            assert forall|j: int| 0 <= j < 4 * (sx + 1) implies row@[j] == goal[j] by {
                if j >= 4 * sx {
                    assert(j / 4 == sx);
                }
            }
            sx = sx + 1;
        }
        assert(row@ =~= goal);
    }
}

/// Renders the part of a background that a camera shows into `frame`. Each
/// row of the frame is worked out by itself, the rows side by side.
pub fn render_view(
    background: &[u8],
    width: u32,
    height: u32,
    view: &Viewport,
    frame: &mut [u8],
    screen_width: u32,
    screen_height: u32,
)
    requires
        width > 0,
        background@.len() == byte_len(width as int, height as int),
        view.wf(),
        old(frame)@.len() == byte_len(screen_width as int, screen_height as int),
    ensures
        final(frame)@ == rendered(
            background@,
            width as int,
            height as int,
            *view,
            screen_width as int,
            screen_height as int,
        ),
{
    assert(frame@.len() == frame.len());
    if screen_width == 0 || screen_height == 0 {
        assert(byte_len(screen_width as int, screen_height as int) == 0) by (nonlinear_arith)
            requires
                screen_width == 0 || screen_height == 0,
        ;
        assert(frame@ =~= rendered(
            background@,
            width as int,
            height as int,
            *view,
            screen_width as int,
            screen_height as int,
        ));
        return ;
    }
    assert(4 * screen_width <= screen_width * screen_height * 4 && screen_width * screen_height * 4
        == screen_height * (4 * screen_width)) by (nonlinear_arith)
        requires
            screen_width > 0,
            screen_height > 0,
    ;
    let kernel = RenderKernel {
        background,
        width,
        height,
        view: *view,
        inverse: view.inverse_zoom(),
        screen_width,
        screen_height,
    };
    let row_len: usize = 4 * (screen_width as usize);
    run_rows(frame, row_len, &kernel);
    proof {
        let goal = rendered(
            background@,
            width as int,
            height as int,
            *view,
            screen_width as int,
            screen_height as int,
        );
        assert forall|k: int| 0 <= k < frame@.len() implies frame@[k] == goal[k] by {
            lemma_frame_byte(k, screen_width as int);
            vstd::arithmetic::div_mod::lemma_mod_bound(k, row_len as int);
        }
        assert(frame@ =~= goal);
    }
}

} // verus!
