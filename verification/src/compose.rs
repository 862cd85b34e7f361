//! The compositor: the drawing layer, then the posters, laid over a frame.

use vstd::prelude::*;
use crate::color::laid_over;
use crate::color::lay_over;
use crate::color::Rgba;
use crate::grid::byte_len;
use crate::grid::get_pixel;
use crate::grid::ink_upto;
use crate::grid::lemma_cell_range;
use crate::grid::lemma_ink_upto_zero;
use crate::grid::locate;
use crate::grid::pixel_at;
use crate::grid::sample;
use crate::grid::set_pixel;
use crate::parallel::row_of;
use crate::parallel::run_rows;
use crate::parallel::RowKernel;
use crate::render::lemma_frame_byte;
use crate::render::project;
use crate::viewport::projected;
use crate::viewport::reciprocal;
use crate::viewport::Viewport;

verus! {

/// What the screen pixel `(sx, sy)` shows once the drawing layer lies over
/// `under`: the layer's pixel under it, found as the renderer finds the
/// background's, laid over `under` with alpha kept. Outside the board's rows
/// the layer is transparent.
pub open spec fn drawn_pixel(
    layer: Seq<u8>,
    width: int,
    height: int,
    view: Viewport,
    sx: int,
    sy: int,
    under: Rgba,
) -> Rgba {
    let inverse = reciprocal(view.zoom as int);
    laid_over(
        sample(
            layer,
            width,
            height,
            projected(view.position.x as int, sx, inverse),
            projected(view.position.y as int, sy, inverse),
            Rgba::spec_transparent(),
        ),
        under,
        false,
    )
}

/// Row `sy` of a frame once the drawing layer lies over it.
pub open spec fn drawn_row(
    layer: Seq<u8>,
    width: int,
    height: int,
    view: Viewport,
    sy: int,
    before: Seq<u8>,
) -> Seq<u8> {
    Seq::new(
        before.len(),
        |j: int|
            drawn_pixel(layer, width, height, view, j / 4, sy, pixel_at(before, j / 4)).channel(
                j % 4,
            ),
    )
}

/// A frame of rows `screen_width` pixels long once the drawing layer lies
/// over it.
pub open spec fn with_drawing(
    frame: Seq<u8>,
    layer: Seq<u8>,
    width: int,
    height: int,
    view: Viewport,
    screen_width: int,
) -> Seq<u8> {
    Seq::new(
        frame.len(),
        |k: int|
            drawn_pixel(
                layer,
                width,
                height,
                view,
                (k / 4) % screen_width,
                (k / 4) / screen_width,
                pixel_at(frame, k / 4),
            ).channel(k % 4),
    )
}

/// A drawing layer without ink leaves every frame as it is.
pub proof fn lemma_blank_layer_shows_nothing(
    frame: Seq<u8>,
    layer: Seq<u8>,
    width: int,
    height: int,
    view: Viewport,
    screen_width: int,
)
    requires
        width > 0,
        height >= 0,
        layer.len() == byte_len(width, height),
        ink_upto(layer, width * height) == 0,
        frame.len() % 4 == 0,
    ensures
        with_drawing(frame, layer, width, height, view, screen_width) == frame,
{
    assert(width * height >= 0) by (nonlinear_arith)
        requires
            width > 0,
            height >= 0,
    ;
    lemma_ink_upto_zero(layer, width * height);
    let after = with_drawing(frame, layer, width, height, view, screen_width);
    assert forall|k: int| 0 <= k < frame.len() implies after[k] == frame[k] by {
        let inverse = reciprocal(view.zoom as int);
        let x = projected(view.position.x as int, (k / 4) % screen_width, inverse);
        let y = projected(view.position.y as int, (k / 4) / screen_width, inverse);
        if 0 <= y < height {
            lemma_cell_range(x, y, width, height);
            let p = crate::grid::cell(x, y, width);
            assert(layer[4 * p + 3] == 0);
        }
    }
    assert(after =~= frame);
}

/// The work on one row of the frame.
pub(crate) struct DrawingKernel<'a> {
    pub(crate) layer: &'a [u8],
    pub(crate) width: u32,
    pub(crate) height: u32,
    pub(crate) view: Viewport,
    pub(crate) inverse: i64,
    pub(crate) screen_width: u32,
    pub(crate) screen_height: u32,
}

impl<'a> RowKernel for DrawingKernel<'a> {
    open spec fn ready(&self) -> bool {
        &&& self.width > 0
        &&& self.layer@.len() == byte_len(self.width as int, self.height as int)
        &&& self.view.wf()
        &&& self.inverse == reciprocal(self.view.zoom as int)
        &&& 0 <= self.inverse <= 0x10_0000
        &&& self.screen_width > 0
        &&& 4 * self.screen_width <= usize::MAX
    }

    open spec fn row_len(&self) -> nat {
        (4 * self.screen_width) as nat
    }

    open spec fn rows(&self) -> nat {
        self.screen_height as nat
    }

    open spec fn row_after(&self, index: int, before: Seq<u8>) -> Seq<u8> {
        drawn_row(self.layer@, self.width as int, self.height as int, self.view, index, before)
    }

    fn apply(&self, index: usize, row: &mut [u8]) {
        assert(self.layer@.len() == self.layer.len());
        let board_y: i64 = project(self.view.position.y, index as u32, self.inverse);
        let ghost goal = self.row_after(index as int, old(row)@);
        if board_y < 0 || board_y >= self.height as i64 {
            assert(row@ =~= goal);
            return ;
        }
        let mut sx: u32 = 0;
        while sx < self.screen_width
            invariant
                self.ready(),
                index < self.rows(),
                sx <= self.screen_width,
                row@.len() == 4 * self.screen_width,
                row@.len() == old(row)@.len(),
                self.layer@.len() <= usize::MAX,
                0 <= board_y < self.height,
                board_y == projected(
                    self.view.position.y as int,
                    index as int,
                    self.inverse as int,
                ),
                goal == self.row_after(index as int, old(row)@),
                forall|j: int| 0 <= j < 4 * sx ==> row@[j] == goal[j],
                forall|j: int| 4 * sx <= j < 4 * self.screen_width ==> row@[j] == old(row)@[j],
            decreases self.screen_width - sx,
        {
            let board_x: i64 = project(self.view.position.x, sx, self.inverse);
            let under: Rgba = get_pixel(row, sx as usize);
            assert(under == pixel_at(old(row)@, sx as int));
            let over: Rgba = match locate(board_x, board_y, self.width, self.height) {
                Some(at) => get_pixel(self.layer, at),
                None => Rgba::transparent(),
            };
            let shown: Rgba = lay_over(over, under, false);
            assert(shown == drawn_pixel(
                self.layer@,
                self.width as int,
                self.height as int,
                self.view,
                sx as int,
                index as int,
                pixel_at(old(row)@, sx as int),
            ));
            set_pixel(row, sx as usize, shown);
            assert forall|j: int| 0 <= j < 4 * (sx + 1) implies row@[j] == goal[j] by {
                if j >= 4 * sx {
                    assert(j / 4 == sx);
                }
            }
            sx = sx + 1;
        }
        assert(row@ =~= goal);
    }
}

/// Lays the drawing layer over a frame, for the camera `view`. Each row of
/// the frame is worked out by itself, the rows side by side.
pub fn lay_drawing(
    layer: &[u8],
    width: u32,
    height: u32,
    view: &Viewport,
    frame: &mut [u8],
    screen_width: u32,
    screen_height: u32,
)
    requires
        width > 0,
        layer@.len() == byte_len(width as int, height as int),
        view.wf(),
        old(frame)@.len() == byte_len(screen_width as int, screen_height as int),
    ensures
        final(frame)@ == with_drawing(
            old(frame)@,
            layer@,
            width as int,
            height as int,
            *view,
            screen_width as int,
        ),
{
    assert(frame@.len() == frame.len());
    if screen_width == 0 || screen_height == 0 {
        assert(byte_len(screen_width as int, screen_height as int) == 0) by (nonlinear_arith)
            requires
                screen_width == 0 || screen_height == 0,
        ;
        assert(frame@ =~= with_drawing(
            old(frame)@,
            layer@,
            width as int,
            height as int,
            *view,
            screen_width as int,
        ));
        return ;
    }
    assert(4 * screen_width <= screen_width * screen_height * 4 && screen_width * screen_height * 4
        == screen_height * (4 * screen_width)) by (nonlinear_arith)
        requires
            screen_width > 0,
            screen_height > 0,
    ;
    let kernel = DrawingKernel {
        layer,
        width,
        height,
        view: *view,
        inverse: view.inverse_zoom(),
        screen_width,
        screen_height,
    };
    let row_len: usize = 4 * (screen_width as usize);
    run_rows(frame, row_len, &kernel);
    proof {
        let goal = with_drawing(
            old(frame)@,
            layer@,
            width as int,
            height as int,
            *view,
            screen_width as int,
        );
        assert forall|k: int| 0 <= k < frame@.len() implies frame@[k] == goal[k] by {
            lemma_frame_byte(k, screen_width as int);
            vstd::arithmetic::div_mod::lemma_mod_bound(k, row_len as int);
            vstd::arithmetic::div_mod::lemma_fundamental_div_mod(k, row_len as int);
            let i = k / (row_len as int);
            let j = k % (row_len as int);
            crate::parallel::lemma_byte_in_row(
                old(frame)@,
                k,
                row_len as int,
                screen_height as int,
            );
            let before = row_of(old(frame)@, i, row_len as int);
            assert(i * (row_len as int) == (row_len as int) * i) by (nonlinear_arith);
            assert(i * (row_len as int) == 4 * (i * screen_width)) by (nonlinear_arith)
                requires
                    row_len == 4 * screen_width,
            ;
            assert(row_len as int == 4 * (screen_width as int));
            assert(k / 4 == i * screen_width + j / 4);
            assert(4 * (j / 4) + 3 < row_len);
            let base = i * (row_len as int);
            assert(base + row_len <= screen_height * row_len) by (nonlinear_arith)
                requires
                    0 <= i < screen_height,
                    base == i * (row_len as int),
                    row_len > 0,
            ;
            let total = old(frame)@.len() as int;
            assert(total == screen_height * row_len) by (nonlinear_arith)
                requires
                    total == screen_width * screen_height * 4,
                    row_len == 4 * screen_width,
            ;
            assert(forall|c: int| 0 <= c < row_len ==> before[c] == old(frame)@[base + c]);
            assert(before[4 * (j / 4)] == old(frame)@[base + 4 * (j / 4)]);
            assert(before[4 * (j / 4) + 1] == old(frame)@[base + (4 * (j / 4) + 1)]);
            assert(before[4 * (j / 4) + 2] == old(frame)@[base + (4 * (j / 4) + 2)]);
            assert(before[4 * (j / 4) + 3] == old(frame)@[base + (4 * (j / 4) + 3)]);
            assert(4 * (k / 4) == base + 4 * (j / 4));
            assert(pixel_at(before, j / 4) == pixel_at(old(frame)@, k / 4));
        }
        assert(frame@ =~= goal);
    }
}

} // verus!
