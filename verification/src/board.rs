//! The board: background, drawing layer, undo history and render cache.

use vstd::prelude::*;
use vstd::slice::slice_subrange;
use vstd::slice::slice_to_vec;
use crate::color::remap;
use crate::color::remapped;
use crate::color::BoardMode;
use crate::color::Rgba;
use crate::compose::lay_drawing;
use crate::compose::lemma_blank_layer_shows_nothing;
use crate::compose::with_drawing;
use crate::format::encode_header;
use crate::format::decode_header;
use crate::format::has_valid_header;
use crate::format::header_bytes;
use crate::format::stored_header;
use crate::format::stored_pixels;
use crate::format::HEADER_SIZE;
use crate::grid::byte_len;
use crate::grid::count_ink;
use crate::grid::fill;
use crate::grid::filled;
use crate::grid::get_pixel;
use crate::grid::ink;
use crate::grid::lemma_ink_filled;
use crate::grid::lemma_ink_upto_range;
use crate::grid::lemma_ink_upto_written;
use crate::grid::locate;
use crate::grid::new_filled;
use crate::grid::pixel_at;
use crate::grid::sample;
use crate::grid::set_pixel;
use crate::grid::valid_dimensions;
use crate::grid::with_pixel;
use crate::grid::written;
use crate::grid::MAX_DIMENSION;
use crate::parallel::row_of;
use crate::parallel::run_rows;
use crate::parallel::RowKernel;
use crate::render::render_view;
use crate::render::rendered;
use crate::viewport::Point;
use crate::viewport::Viewport;
use crate::viewport::EPSILON;

verus! {

/// The number of strokes that can be taken back.
pub const UNDO_LIMIT: usize = 3;

/// What the caller has to write out after an operation: nothing; the board
/// file, which is header and background; or the board file and the drawing
/// layer's file.
#[derive(Clone, Copy, Debug, PartialEq, Eq, Structural)]
pub enum Persist {
    Nothing,
    Canvas,
    Everything,
}

/// A board's size and mode.
#[derive(Clone, Copy, Debug, PartialEq, Eq, Structural)]
pub struct BoardConfig {
    pub width: u32,
    pub height: u32,
    pub mode: BoardMode,
}

/// A drawing layer as it was before a stroke.
struct Snapshot {
    pixels: Vec<u8>,
    ink: usize,
}

/// A frame kept from the last rendering, and what it was rendered for.
pub struct Memo {
    pub frame: Seq<u8>,
    pub width: u32,
    pub height: u32,
    pub viewport: Viewport,
}

/// What a board holds.
pub struct BoardView {
    pub width: u32,
    pub height: u32,
    pub mode: BoardMode,
    /// The camera.
    pub viewport: Viewport,
    /// The background's RGBA bytes.
    pub background: Seq<u8>,
    /// The drawing layer's RGBA bytes.
    pub drawing: Seq<u8>,
    /// The drawing layers that `undo` brings back, the oldest first.
    pub history: Seq<Seq<u8>>,
    /// The frame kept from the last rendering, if it can still be used.
    pub memo: Option<Memo>,
}

/// The board with cylindrical topology.
pub struct Board {
    config: BoardConfig,
    viewport: Viewport,
    cache: Vec<u8>,
    drawing_layer: Vec<u8>,
    ink: usize,
    undo_stack: Vec<Snapshot>,
    viewport_cache: Vec<u8>,
    cached_viewport_width: u32,
    cached_viewport_height: u32,
    cached_viewport: Viewport,
    viewport_dirty: bool,
}

/// Two camera coordinates, or two zooms, no further apart than `EPSILON`.
pub open spec fn near(a: int, b: int) -> bool {
    -EPSILON <= a - b <= EPSILON
}

/// The undo history after the layer `layer` is put on it: the newest
/// `UNDO_LIMIT` of the old entries and `layer`.
pub open spec fn pushed(history: Seq<Seq<u8>>, layer: Seq<u8>) -> Seq<Seq<u8>> {
    if history.len() < UNDO_LIMIT {
        history.push(layer)
    } else {
        history.subrange(1, history.len() as int).push(layer)
    }
}

/// A buffer after a change of mode away from `from`, every pixel remapped by
/// itself.
pub open spec fn recoloured(buf: Seq<u8>, from: BoardMode) -> Seq<u8> {
    Seq::new(buf.len(), |k: int| remapped(pixel_at(buf, k / 4), from).channel(k % 4))
}

/// A new board: the background in the mode's colour, nothing drawn, nothing
/// to undo, nothing rendered.
pub open spec fn fresh(width: u32, height: u32, mode: BoardMode) -> BoardView {
    BoardView {
        width,
        height,
        mode,
        viewport: Viewport::home(),
        background: filled(width * height, mode.background()),
        drawing: filled(width * height, Rgba::spec_transparent()),
        history: Seq::empty(),
        memo: None,
    }
}

/// The board that a board file and a drawing layer file hold, for a caller
/// who asks for `width`, `height` and `mode`. A file with a valid header
/// decides mode and size itself; the drawing layer is taken only if its
/// length is that of the background. Any other file gives a new board of the
/// size and mode asked for.
pub open spec fn opened(
    width: u32,
    height: u32,
    mode: BoardMode,
    file: Seq<u8>,
    drawing: Seq<u8>,
) -> BoardView {
    if has_valid_header(file) {
        let header = stored_header(file, mode);
        let len = byte_len(header.width as int, header.height as int);
        BoardView {
            width: header.width,
            height: header.height,
            mode: header.mode,
            viewport: Viewport::home(),
            background: stored_pixels(file, len),
            drawing: if drawing.len() == len {
                drawing
            } else {
                filled(header.width * header.height, Rgba::spec_transparent())
            },
            history: Seq::empty(),
            memo: None,
        }
    } else {
        fresh(width, height, mode)
    }
}

/// The size of the board that `opened` gives.
pub open spec fn opened_len(width: u32, height: u32, file: Seq<u8>) -> int {
    if has_valid_header(file) {
        byte_len(crate::format::stored_width(file), crate::format::stored_height(file))
    } else {
        byte_len(width as int, height as int)
    }
}

impl BoardView {
    pub open spec fn wf(self) -> bool {
        &&& valid_dimensions(self.width as int, self.height as int)
        &&& self.viewport.wf()
        &&& self.background.len() == byte_len(self.width as int, self.height as int)
        &&& self.drawing.len() == byte_len(self.width as int, self.height as int)
        &&& self.history.len() <= UNDO_LIMIT
        &&& forall|i: int|
            0 <= i < self.history.len() ==> (#[trigger] self.history[i]).len() == byte_len(
                self.width as int,
                self.height as int,
            )
        &&& match self.memo {
            Some(memo) => {
                &&& memo.viewport.wf()
                &&& memo.frame.len() > 0
                &&& memo.frame == rendered(
                    self.background,
                    self.width as int,
                    self.height as int,
                    memo.viewport,
                    memo.width as int,
                    memo.height as int,
                )
            },
            None => true,
        }
    }

    /// Whether anything is drawn: whether some pixel of the drawing layer has
    /// an alpha other than zero.
    pub open spec fn has_ink(self) -> bool {
        ink(self.drawing) > 0
    }

    /// Whether the kept frame serves for a screen of `screen_width` by
    /// `screen_height`: it was rendered for that screen size, and the camera
    /// has neither moved nor zoomed by more than `EPSILON` since.
    pub open spec fn reusable(self, screen_width: u32, screen_height: u32) -> bool {
        let view = self.viewport;
        match self.memo {
            Some(memo) => {
                &&& memo.width == screen_width
                &&& memo.height == screen_height
                &&& near(view.position.x as int, memo.viewport.position.x as int)
                &&& near(view.position.y as int, memo.viewport.position.y as int)
                &&& near(view.zoom as int, memo.viewport.zoom as int)
            },
            None => false,
        }
    }

    /// The frame that rendering gives: the kept frame where it serves, and a
    /// new rendering of the background where it does not.
    pub open spec fn shown(self, screen_width: u32, screen_height: u32) -> Seq<u8> {
        if self.reusable(screen_width, screen_height) {
            self.memo.unwrap().frame
        } else {
            rendered(
                self.background,
                self.width as int,
                self.height as int,
                self.viewport,
                screen_width as int,
                screen_height as int,
            )
        }
    }

    /// The board after rendering: a frame that was rendered anew is kept,
    /// unless it is empty.
    pub open spec fn after_render(self, screen_width: u32, screen_height: u32) -> BoardView {
        if self.reusable(screen_width, screen_height) {
            self
        } else {
            let frame = self.shown(screen_width, screen_height);
            BoardView {
                memo: if frame.len() > 0 {
                    Some(
                        Memo {
                            frame,
                            width: screen_width,
                            height: screen_height,
                            viewport: self.viewport,
                        },
                    )
                } else {
                    None
                },
                ..self
            }
        }
    }

    /// The board after `c` is written to the background at `(x, y)`: the kept
    /// frame is given up. Where `y` is outside the rows nothing changes.
    pub open spec fn after_write(self, x: int, y: int, c: Rgba) -> BoardView {
        if 0 <= y < self.height {
            BoardView {
                background: written(
                    self.background,
                    self.width as int,
                    self.height as int,
                    x,
                    y,
                    c,
                ),
                memo: None,
                ..self
            }
        } else {
            self
        }
    }

    /// The board after `c` is drawn on the drawing layer at `(x, y)`.
    pub open spec fn after_draw(self, x: int, y: int, c: Rgba) -> BoardView {
        BoardView {
            drawing: written(self.drawing, self.width as int, self.height as int, x, y, c),
            ..self
        }
    }

    /// The board after the drawing layer is put on the undo history.
    pub open spec fn after_save(self) -> BoardView {
        BoardView { history: pushed(self.history, self.drawing), ..self }
    }

    /// The board after one undo: the newest entry of the history becomes the
    /// drawing layer. Without an entry nothing changes.
    pub open spec fn after_undo(self) -> BoardView {
        if self.history.len() > 0 {
            BoardView { drawing: self.history.last(), history: self.history.drop_last(), ..self }
        } else {
            self
        }
    }

    /// The board after a change of mode.
    pub open spec fn after_toggle(self) -> BoardView {
        BoardView {
            mode: self.mode.flipped(),
            background: recoloured(self.background, self.mode),
            memo: None,
            ..self
        }
    }

    /// The board after it is cleared: background and drawing layer as on a
    /// new board; the undo history stays.
    pub open spec fn after_clear(self) -> BoardView {
        BoardView {
            background: filled(self.width * self.height, self.mode.background()),
            drawing: filled(self.width * self.height, Rgba::spec_transparent()),
            memo: None,
            ..self
        }
    }

    /// The board file's bytes.
    pub open spec fn file(self) -> Seq<u8> {
        crate::format::file_image(self.mode, self.width, self.height, self.background)
    }
}

/// Horizontal periodicity of the background: what `write_pixel` writes at
/// `(x, y)`, `read_pixel` reads at `(x + k * width, y)` for every whole `k`,
/// where `y` is one of the rows.
pub proof fn lemma_background_periodic(board: BoardView, x: int, y: int, k: int, c: Rgba)
    requires
        board.wf(),
        0 <= y < board.height,
    ensures
        sample(
            board.after_write(x, y, c).background,
            board.width as int,
            board.height as int,
            x + k * board.width,
            y,
            Rgba::spec_black(),
        ) == c,
{
    crate::grid::lemma_write_then_read(
        board.background,
        board.width as int,
        board.height as int,
        x,
        y,
        k,
        c,
        Rgba::spec_black(),
    );
}

/// Horizontal periodicity of the drawing layer: what `draw_pixel` draws at
/// `(x, y)`, `read_drawn_pixel` reads at `(x + k * width, y)` for every whole
/// `k`, where `y` is one of the rows.
pub proof fn lemma_drawing_periodic(board: BoardView, x: int, y: int, k: int, c: Rgba)
    requires
        board.wf(),
        0 <= y < board.height,
    ensures
        sample(
            board.after_draw(x, y, c).drawing,
            board.width as int,
            board.height as int,
            x + k * board.width,
            y,
            Rgba::spec_transparent(),
        ) == c,
{
    crate::grid::lemma_write_then_read(
        board.drawing,
        board.width as int,
        board.height as int,
        x,
        y,
        k,
        c,
        Rgba::spec_transparent(),
    );
}

/// Something is drawn exactly when some pixel of the drawing layer has an
/// alpha other than zero.
pub proof fn lemma_has_ink(board: BoardView)
    requires
        board.wf(),
    ensures
        board.has_ink() <==> exists|p: int|
            0 <= p < board.width * board.height && (#[trigger] pixel_at(board.drawing, p)).a != 0,
{
    let pixels = board.width * board.height;
    assert(board.drawing.len() == 4 * pixels && pixels >= 0) by (nonlinear_arith)
        requires
            board.drawing.len() == board.width * board.height * 4,
            pixels == board.width * board.height,
    ;
    crate::grid::lemma_ink_upto_zero(board.drawing, pixels);
    lemma_ink_upto_range(board.drawing, pixels);
    if board.has_ink() {
        let p = choose|p: int| 0 <= p < pixels && #[trigger] board.drawing[4 * p + 3] != 0;
        assert(pixel_at(board.drawing, p).a != 0);
    }
    if exists|p: int| 0 <= p < pixels && (#[trigger] pixel_at(board.drawing, p)).a != 0 {
        let p = choose|p: int| 0 <= p < pixels && (#[trigger] pixel_at(board.drawing, p)).a != 0;
        assert(board.drawing[4 * p + 3] != 0);
    }
}

/// Drawing a colour that is not fully transparent in one of the rows leaves
/// something drawn.
pub proof fn lemma_draw_leaves_ink(board: BoardView, x: int, y: int, c: Rgba)
    requires
        board.wf(),
        0 <= y < board.height,
        c.a != 0,
    ensures
        board.after_draw(x, y, c).has_ink(),
{
    let after = board.after_draw(x, y, c);
    crate::grid::lemma_cell_range(x, y, board.width as int, board.height as int);
    let p = crate::grid::cell(x, y, board.width as int);
    assert(pixel_at(after.drawing, p) == c);
    lemma_has_ink(after);
}

/// Vertical rejection: writing or drawing in the row above the first, in the
/// row below the last, or in any row further out leaves the board as it is.
pub proof fn lemma_outside_rows_rejected(board: BoardView, x: int, y: int, c: Rgba)
    requires
        y < 0 || y >= board.height,
    ensures
        board.after_write(x, y, c) == board,
        board.after_draw(x, y, c) == board,
{
}

/// Two changes of mode give the background back, byte for byte, exactly when
/// it holds none of the colours that the round trip loses; the mode comes
/// back in any case.
pub proof fn lemma_toggle_twice(board: BoardView)
    requires
        board.wf(),
    ensures
        board.after_toggle().after_toggle().mode == board.mode,
        board.after_toggle().after_toggle().background == board.background <==> forall|p: int|
            0 <= p < board.width * board.height ==> !crate::color::lost_by_round_trip(
                #[trigger] pixel_at(board.background, p),
                board.mode,
            ),
{
    let once = recoloured(board.background, board.mode);
    let twice = recoloured(once, board.mode.flipped());
    let pixels = board.width * board.height;
    assert(board.background.len() == 4 * pixels) by (nonlinear_arith)
        requires
            board.background.len() == board.width * board.height * 4,
            pixels == board.width * board.height,
    ;
    assert forall|p: int| 0 <= p < pixels implies #[trigger] pixel_at(twice, p) == remapped(
        remapped(pixel_at(board.background, p), board.mode),
        board.mode.flipped(),
    ) by {
        assert((4 * p) / 4 == p && (4 * p + 1) / 4 == p && (4 * p + 2) / 4 == p && (4 * p + 3) / 4
            == p);
        assert(pixel_at(once, p) == remapped(pixel_at(board.background, p), board.mode));
    }
    if forall|p: int|
        0 <= p < pixels ==> !crate::color::lost_by_round_trip(
            #[trigger] pixel_at(board.background, p),
            board.mode,
        ) {
        assert forall|k: int| 0 <= k < board.background.len() implies twice[k]
            == board.background[k] by {
            let p = k / 4;
            crate::color::lemma_remap_round_trip(pixel_at(board.background, p), board.mode);
            assert(!crate::color::lost_by_round_trip(pixel_at(board.background, p), board.mode));
            assert(pixel_at(twice, p) == pixel_at(board.background, p));
        }
        assert(twice =~= board.background);
    }
    if twice == board.background {
        assert forall|p: int| 0 <= p < pixels implies !crate::color::lost_by_round_trip(
            #[trigger] pixel_at(board.background, p),
            board.mode,
        ) by {
            crate::color::lemma_remap_round_trip(pixel_at(board.background, p), board.mode);
            assert(pixel_at(twice, p) == pixel_at(board.background, p));
        }
    }
}

/// The undo history never holds more than `UNDO_LIMIT` layers.
pub proof fn lemma_history_bounded(history: Seq<Seq<u8>>, layer: Seq<u8>)
    requires
        history.len() <= UNDO_LIMIT,
    ensures
        pushed(history, layer).len() <= UNDO_LIMIT,
        pushed(history, layer).last() == layer,
{
}

/// After four strokes the three newest of the layers from before a stroke
/// can be brought back, the newest first, and a fourth undo finds nothing.
/// `d1` to `d4` are the drawing layers that the four strokes leave.
pub proof fn lemma_four_strokes_three_undos(
    board: BoardView,
    d1: Seq<u8>,
    d2: Seq<u8>,
    d3: Seq<u8>,
    d4: Seq<u8>,
)
    requires
        board.wf(),
    ensures
        ({
            let s1 = BoardView { drawing: d1, ..board.after_save() };
            let s2 = BoardView { drawing: d2, ..s1.after_save() };
            let s3 = BoardView { drawing: d3, ..s2.after_save() };
            let s4 = BoardView { drawing: d4, ..s3.after_save() };
            let u1 = s4.after_undo();
            let u2 = u1.after_undo();
            let u3 = u2.after_undo();
            &&& s4.history.len() == 3
            &&& u1.drawing == d3
            &&& u2.drawing == d2
            &&& u3.drawing == d1
            &&& u3.history.len() == 0
            &&& u3.after_undo() == u3
        }),
{
    let s1 = BoardView { drawing: d1, ..board.after_save() };
    let s2 = BoardView { drawing: d2, ..s1.after_save() };
    let s3 = BoardView { drawing: d3, ..s2.after_save() };
    let s4 = BoardView { drawing: d4, ..s3.after_save() };
    assert(s1.history.len() >= 1 && s1.history.last() == board.drawing);
    assert(s2.history.len() >= 2 && s2.history.last() == d1);
    assert(s3.history.len() == 3 && s3.history.last() == d2 && s3.history[1] == d1);
    assert(s4.history =~= seq![d1, d2, d3]);
    let u1 = s4.after_undo();
    assert(u1.history =~= seq![d1, d2]);
    let u2 = u1.after_undo();
    assert(u2.history =~= seq![d1]);
    let u3 = u2.after_undo();
    assert(u3.history =~= Seq::empty());
}

/// Writing a board out and opening what was written gives the same
/// background, mode and size, whatever size and mode the caller asks for; the
/// drawing layer is the one written.
pub proof fn lemma_reopen(board: BoardView, width: u32, height: u32, mode: BoardMode)
    requires
        board.wf(),
    ensures
        ({
            let again = opened(width, height, mode, board.file(), board.drawing);
            &&& again.background == board.background
            &&& again.mode == board.mode
            &&& again.width == board.width
            &&& again.height == board.height
            &&& again.drawing == board.drawing
        }),
{
    crate::format::lemma_file_image_round_trip(
        board.mode,
        board.width,
        board.height,
        board.background,
        mode,
    );
}

/// Rendering twice with the camera and the screen size unchanged gives the
/// same frame both times.
pub proof fn lemma_render_twice(board: BoardView, screen_width: u32, screen_height: u32)
    requires
        board.wf(),
    ensures
        board.after_render(screen_width, screen_height).shown(screen_width, screen_height)
            == board.shown(screen_width, screen_height),
{
}

/// A zoom that differs from that of the kept frame by more than `EPSILON`
/// has the frame rendered anew, and so has a camera that moved by more, or
/// another screen size.
pub proof fn lemma_change_renders_anew(board: BoardView, screen_width: u32, screen_height: u32)
    requires
        board.memo is Some,
        ({
            let memo = board.memo.unwrap();
            ||| !near(board.viewport.zoom as int, memo.viewport.zoom as int)
            ||| !near(board.viewport.position.x as int, memo.viewport.position.x as int)
            ||| !near(board.viewport.position.y as int, memo.viewport.position.y as int)
            ||| memo.width != screen_width
            ||| memo.height != screen_height
        }),
    ensures
        board.shown(screen_width, screen_height) == rendered(
            board.background,
            board.width as int,
            board.height as int,
            board.viewport,
            screen_width as int,
            screen_height as int,
        ),
{
}

/// The work of a change of mode on one pixel.
pub(crate) struct RemapKernel {
    pub(crate) from: BoardMode,
    pub(crate) pixels: usize,
}

impl RowKernel for RemapKernel {
    open spec fn ready(&self) -> bool {
        true
    }

    open spec fn row_len(&self) -> nat {
        4
    }

    open spec fn rows(&self) -> nat {
        self.pixels as nat
    }

    open spec fn row_after(&self, index: int, before: Seq<u8>) -> Seq<u8> {
        with_pixel(before, 0, remapped(pixel_at(before, 0), self.from))
    }

    fn apply(&self, index: usize, row: &mut [u8]) {
        let c: Rgba = get_pixel(row, 0);
        set_pixel(row, 0, remap(c, self.from));
    }
}

/// Whether `a` and `b` are no further apart than `EPSILON`.
fn is_near(a: i64, b: i64) -> (r: bool)
    ensures
        r == near(a as int, b as int),
{
    let d: i128 = a as i128 - b as i128;
    -(EPSILON as i128) <= d && d <= EPSILON as i128
}

/// Copies `src` over `dst`.
fn copy_bytes(dst: &mut [u8], src: &[u8])
    requires
        old(dst)@.len() == src@.len(),
    ensures
        final(dst)@ == src@,
{
    let n: usize = src.len();
    assert(dst@.len() == dst.len());
    let mut i: usize = 0;
    while i < n
        invariant
            i <= n,
            n == src@.len(),
            dst@.len() == n,
            forall|j: int| 0 <= j < i ==> dst@[j] == src@[j],
        decreases n - i,
    {
        dst[i] = src[i];
        i = i + 1;
    }
    assert(dst@ =~= src@);
}

/// Whether a board of this size can be made on this machine: the dimensions
/// are valid and the bytes can be counted in a `usize`.
pub fn can_hold(width: u32, height: u32) -> (ok: bool)
    ensures
        ok == (valid_dimensions(width as int, height as int) && byte_len(
            width as int,
            height as int,
        ) <= usize::MAX),
{
    if width == 0 || height == 0 || width > MAX_DIMENSION || height > MAX_DIMENSION {
        return false;
    }
    assert(width * height <= 100_000 * 100_000) by (nonlinear_arith)
        requires
            0 < width <= 100_000,
            0 < height <= 100_000,
    ;
    let bytes: u64 = (width as u64) * (height as u64) * 4;
    assert(bytes == byte_len(width as int, height as int));
    bytes <= usize::MAX as u64
}

impl View for Board {
    type V = BoardView;

    closed spec fn view(&self) -> BoardView {
        BoardView {
            width: self.config.width,
            height: self.config.height,
            mode: self.config.mode,
            viewport: self.viewport,
            background: self.cache@,
            drawing: self.drawing_layer@,
            history: Seq::new(self.undo_stack@.len(), |i: int| self.undo_stack@[i].pixels@),
            memo: if !self.viewport_dirty && self.viewport_cache@.len() > 0 {
                Some(
                    Memo {
                        frame: self.viewport_cache@,
                        width: self.cached_viewport_width,
                        height: self.cached_viewport_height,
                        viewport: self.cached_viewport,
                    },
                )
            } else {
                None
            },
        }
    }
}

impl Board {
    /// The bookkeeping that the view does not show: the counts of inked
    /// pixels kept with the drawing layer and with each snapshot are right.
    pub closed spec fn consistent(&self) -> bool {
        &&& self.ink == ink(self.drawing_layer@)
        &&& forall|i: int|
            0 <= i < self.undo_stack@.len() ==> (#[trigger] self.undo_stack@[i]).ink == ink(
                self.undo_stack@[i].pixels@,
            )
    }

    /// A board is well formed when what it holds is, and its bookkeeping is
    /// right.
    pub open spec fn wf(&self) -> bool {
        self@.wf() && self.consistent()
    }

    /// The bytes of a board that exists can be counted in a `usize`.
    pub proof fn lemma_fits(&self)
        requires
            self.wf(),
        ensures
            byte_len(self@.width as int, self@.height as int) <= usize::MAX,
    {
        assert(self.cache@.len() == self.cache.len());
    }

    /// Makes a new board of the given size and mode.
    pub fn create(width: u32, height: u32, mode: BoardMode) -> (board: Board)
        requires
            valid_dimensions(width as int, height as int),
            byte_len(width as int, height as int) <= usize::MAX,
        ensures
            board.wf(),
            board@ == fresh(width, height, mode),
    {
        assert(width * height * 4 == 4 * (width * height) && width * height >= 0)
            by (nonlinear_arith);
        let pixels: usize = (width as usize) * (height as usize);
        let cache: Vec<u8> = new_filled(pixels, mode.background_color());
        let drawing_layer: Vec<u8> = new_filled(pixels, Rgba::transparent());
        proof {
            lemma_ink_filled(pixels as int, Rgba::spec_transparent(), pixels as int);
        }
        let board = Board {
            config: BoardConfig { width, height, mode },
            viewport: Viewport::new(),
            cache,
            drawing_layer,
            ink: 0,
            undo_stack: Vec::new(),
            viewport_cache: Vec::new(),
            cached_viewport_width: 0,
            cached_viewport_height: 0,
            cached_viewport: Viewport::new(),
            viewport_dirty: true,
        };
        assert(board@.history =~= Seq::empty());
        board
    }

    /// Opens the board that `file` holds, or makes a new one.
    ///
    /// `file` is what the board file holds, and `drawing_file` what the
    /// drawing layer's file holds; a file that does not exist is given as no
    /// bytes. The second result says what to write out: nothing for a board
    /// that was read, and the board file for a new one.
    pub fn new(width: u32, height: u32, mode: BoardMode, file: &[u8], drawing_file: &[u8]) -> (r: (
        Board,
        Persist,
    ))
        requires
            valid_dimensions(width as int, height as int),
            opened_len(width, height, file@) <= usize::MAX,
        ensures
            r.0.wf(),
            r.0@ == opened(width, height, mode, file@, drawing_file@),
            r.1 == if has_valid_header(file@) {
                Persist::Nothing
            } else {
                Persist::Canvas
            },
    {
        assert(file@.len() == file.len());
        assert(drawing_file@.len() == drawing_file.len());
        match decode_header(file, mode) {
            Some(header) => {
                let w: u32 = header.width;
                let h: u32 = header.height;
                assert(w * h * 4 == 4 * (w * h) && w * h >= 0) by (nonlinear_arith);
                let pixels: usize = (w as usize) * (h as usize);
                let len: usize = 4 * pixels;
                let stored: usize = file.len() - HEADER_SIZE;
                let take: usize = if stored < len {
                    stored
                } else {
                    len
                };
                let mut cache: Vec<u8> = Vec::new();
                cache.extend_from_slice(slice_subrange(file, HEADER_SIZE, HEADER_SIZE + take));
                let ghost read = cache@;
                assert forall|i: int| 0 <= i < take implies read[i] == file@[HEADER_SIZE + i] by {
                    assert(file@.subrange(HEADER_SIZE as int, HEADER_SIZE + take)[i] == file@[
                        HEADER_SIZE + i]);
                }
                cache.resize(len, 0u8);
                assert forall|i: int| 0 <= i < len implies cache@[i] == stored_pixels(
                    file@,
                    len as int,
                )[i] by {
                    if i < take {
                        assert(cache@.subrange(0, take as int)[i] == read[i]);
                    }
                }
                assert(cache@ =~= stored_pixels(file@, len as int));
                let mut drawing_layer: Vec<u8>;
                let mut inked: usize = 0;
                if drawing_file.len() == len {
                    drawing_layer = slice_to_vec(drawing_file);
                    inked = count_ink(drawing_file);
                } else {
                    drawing_layer = new_filled(pixels, Rgba::transparent());
                    proof {
                        lemma_ink_filled(pixels as int, Rgba::spec_transparent(), pixels as int);
                    }
                }
                let board = Board {
                    config: BoardConfig { width: w, height: h, mode: header.mode },
                    viewport: Viewport::new(),
                    cache,
                    drawing_layer,
                    ink: inked,
                    undo_stack: Vec::new(),
                    viewport_cache: Vec::new(),
                    cached_viewport_width: 0,
                    cached_viewport_height: 0,
                    cached_viewport: Viewport::new(),
                    viewport_dirty: true,
                };
                assert(board@.history =~= Seq::empty());
                (board, Persist::Nothing)
            },
            None => (Board::create(width, height, mode), Persist::Canvas),
        }
    }

    /// The width of the board, in pixels.
    pub fn width(&self) -> (w: u32)
        ensures
            w == self@.width,
    {
        self.config.width
    }

    /// The height of the board, in pixels.
    pub fn height(&self) -> (h: u32)
        ensures
            h == self@.height,
    {
        self.config.height
    }

    /// The mode of the board.
    pub fn mode(&self) -> (m: BoardMode)
        ensures
            m == self@.mode,
    {
        self.config.mode
    }

    /// The board's size and mode.
    pub fn config(&self) -> (c: BoardConfig)
        ensures
            c == (BoardConfig { width: self@.width, height: self@.height, mode: self@.mode }),
    {
        self.config
    }

    /// The camera.
    pub fn viewport(&self) -> (v: Viewport)
        ensures
            v == self@.viewport,
    {
        self.viewport
    }

    /// Points the camera. A zoom outside the bounds is held to them.
    pub fn set_viewport(&mut self, viewport: Viewport)
        requires
            old(self).wf(),
        ensures
            final(self).wf(),
            final(self)@ == (BoardView { viewport: viewport.bounded(), ..old(self)@ }),
    {
        self.viewport = viewport.held();
        assert(self@.history =~= old(self)@.history);
    }

    /// Moves the camera by `(dx, dy)`, stopping at the ends of the range.
    pub fn pan(&mut self, dx: i64, dy: i64)
        requires
            old(self).wf(),
        ensures
            final(self).wf(),
            final(self)@ == (BoardView { viewport: old(self)@.viewport.panned(dx, dy), ..old(self)@ }),
    {
        self.viewport.pan(dx, dy);
        assert(self@.history =~= old(self)@.history);
    }

    /// Zooms by one notch of the wheel, in or out, about the screen position
    /// `cursor`.
    pub fn zoom_at(&mut self, cursor: Point, zoom_in: bool)
        requires
            old(self).wf(),
        ensures
            final(self).wf(),
            final(self)@ == (BoardView {
                viewport: old(self)@.viewport.zoomed_at(cursor, zoom_in),
                ..old(self)@
            }),
    {
        self.viewport.zoom_at(cursor, zoom_in);
        assert(self@.history =~= old(self)@.history);
    }

    /// The board position under a screen position.
    pub fn screen_to_canvas(&self, screen: Point) -> (p: Point)
        requires
            self.wf(),
        ensures
            p == self@.viewport.canvas_point(screen),
    {
        self.viewport.screen_to_canvas(screen)
    }

    /// The pen colour that goes with the board's mode.
    pub fn default_pen_color(&self) -> (c: Rgba)
        ensures
            c == self@.mode.default_pen(),
    {
        self.config.mode.default_pen_color()
    }

    /// The background's bytes, as they follow the header in the board file.
    pub fn background(&self) -> (bytes: &[u8])
        ensures
            bytes@ == self@.background,
    {
        self.cache.as_slice()
    }

    /// The drawing layer's bytes, as they stand in its file.
    pub fn drawing_layer(&self) -> (bytes: &[u8])
        ensures
            bytes@ == self@.drawing,
    {
        self.drawing_layer.as_slice()
    }

    /// The header of the board file.
    pub fn write_header(&self) -> (bytes: [u8; 9])
        ensures
            bytes@ == header_bytes(self@.mode, self@.width, self@.height),
    {
        encode_header(self.config.mode, self.config.width, self.config.height)
    }

    /// The whole board file: the header, then the background.
    pub fn file_bytes(&self) -> (bytes: Vec<u8>)
        ensures
            bytes@ == self@.file(),
    {
        let header: [u8; 9] = self.write_header();
        let mut bytes: Vec<u8> = Vec::new();
        bytes.extend_from_slice(header.as_slice());
        bytes.extend_from_slice(self.cache.as_slice());
        assert(bytes@ =~= self@.file());
        bytes
    }

    /// Whether anything is drawn.
    pub fn has_drawings(&self) -> (b: bool)
        requires
            self.wf(),
        ensures
            b == self@.has_ink(),
    {
        self.ink > 0
    }

    /// The number of strokes that can be taken back.
    pub fn undo_depth(&self) -> (n: usize)
        requires
            self.wf(),
        ensures
            n == self@.history.len(),
            n <= UNDO_LIMIT,
    {
        self.undo_stack.len()
    }

    /// Reads the background at `(x, y)`: the pixel of column `x` wrapped
    /// round the cylinder, or opaque black where `y` is outside the rows.
    pub fn read_pixel(&self, x: i32, y: i32) -> (c: Rgba)
        requires
            self.wf(),
        ensures
            c == sample(
                self@.background,
                self@.width as int,
                self@.height as int,
                x as int,
                y as int,
                Rgba::spec_black(),
            ),
    {
        proof {
            self.lemma_fits();
        }
        match locate(x as i64, y as i64, self.config.width, self.config.height) {
            Some(at) => get_pixel(self.cache.as_slice(), at),
            None => Rgba::black(),
        }
    }

    /// Writes `color` to the background at `(x, y)`; nothing happens where
    /// `y` is outside the rows.
    pub fn write_pixel(&mut self, x: i32, y: i32, color: Rgba)
        requires
            old(self).wf(),
        ensures
            final(self).wf(),
            final(self)@ == old(self)@.after_write(x as int, y as int, color),
    {
        proof {
            self.lemma_fits();
        }
        match locate(x as i64, y as i64, self.config.width, self.config.height) {
            Some(at) => {
                set_pixel(self.cache.as_mut_slice(), at, color);
                self.viewport_dirty = true;
            },
            None => {},
        }
        assert(self@.history =~= old(self)@.history);
    }

    /// Reads the drawing layer at `(x, y)`; outside the rows it is
    /// transparent.
    pub fn read_drawn_pixel(&self, x: i32, y: i32) -> (c: Rgba)
        requires
            self.wf(),
        ensures
            c == sample(
                self@.drawing,
                self@.width as int,
                self@.height as int,
                x as int,
                y as int,
                Rgba::spec_transparent(),
            ),
    {
        proof {
            self.lemma_fits();
        }
        match locate(x as i64, y as i64, self.config.width, self.config.height) {
            Some(at) => get_pixel(self.drawing_layer.as_slice(), at),
            None => Rgba::transparent(),
        }
    }

    /// Draws `color` on the drawing layer at `(x, y)`, for coordinates of any
    /// size; nothing happens where `y` is outside the rows.
    pub fn plot(&mut self, x: i64, y: i64, color: Rgba)
        requires
            old(self).wf(),
        ensures
            final(self).wf(),
            final(self)@ == old(self)@.after_draw(x as int, y as int, color),
    {
        proof {
            self.lemma_fits();
        }
        match locate(x, y, self.config.width, self.config.height) {
            Some(at) => {
                let before: Rgba = get_pixel(self.drawing_layer.as_slice(), at);
                set_pixel(self.drawing_layer.as_mut_slice(), at, color);
                proof {
                    let n = old(self).drawing_layer@.len() as int / 4;
                    lemma_ink_upto_written(old(self).drawing_layer@, at as int, color, n);
                    lemma_ink_upto_range(self.drawing_layer@, n);
                    lemma_ink_upto_range(old(self).drawing_layer@, n);
                }
                if before.a == 0 && color.a != 0 {
                    self.ink = self.ink + 1;
                } else if before.a != 0 && color.a == 0 {
                    self.ink = self.ink - 1;
                }
            },
            None => {},
        }
        assert(self@.history =~= old(self)@.history);
    }

    /// Draws `color` on the drawing layer at `(x, y)`.
    pub fn draw_pixel(&mut self, x: i32, y: i32, color: Rgba)
        requires
            old(self).wf(),
        ensures
            final(self).wf(),
            final(self)@ == old(self)@.after_draw(x as int, y as int, color),
    {
        self.plot(x as i64, y as i64, color);
    }

    /// Puts the drawing layer on the undo history, dropping the oldest entry
    /// where there are `UNDO_LIMIT` already.
    pub fn save_undo_state(&mut self)
        requires
            old(self).wf(),
        ensures
            final(self).wf(),
            final(self)@ == old(self)@.after_save(),
    {
        let snapshot = Snapshot { pixels: self.drawing_layer.clone(), ink: self.ink };
        self.undo_stack.push(snapshot);
        if self.undo_stack.len() > UNDO_LIMIT {
            let _ = self.undo_stack.remove(0);
        }
        assert(self@.history =~= pushed(old(self)@.history, old(self)@.drawing));
    }

    /// Takes the last stroke back. Returns `false`, and changes nothing,
    /// where there is nothing to take back.
    pub fn undo(&mut self) -> (done: bool)
        requires
            old(self).wf(),
        ensures
            final(self).wf(),
            done == (old(self)@.history.len() > 0),
            final(self)@ == old(self)@.after_undo(),
    {
        match self.undo_stack.pop() {
            Some(previous) => {
                assert(previous == old(self).undo_stack@[old(self).undo_stack@.len() - 1]);
                self.drawing_layer = previous.pixels;
                self.ink = previous.ink;
                assert(self@.history =~= old(self)@.history.drop_last());
                true
            },
            None => {
                assert(self@.history =~= old(self)@.history);
                false
            },
        }
    }

    /// Changes the mode and remaps the background, the pixels side by side.
    /// The board file and the drawing layer are to be written out next.
    pub fn toggle_mode(&mut self) -> (pending: Persist)
        requires
            old(self).wf(),
        ensures
            final(self).wf(),
            final(self)@ == old(self)@.after_toggle(),
            pending == Persist::Everything,
    {
        let from: BoardMode = self.config.mode;
        self.config.mode = from.toggled();
        let kernel = RemapKernel { from, pixels: self.cache.len() / 4 };
        run_rows(self.cache.as_mut_slice(), 4, &kernel);
        self.viewport_dirty = true;
        proof {
            let before = old(self).cache@;
            let goal = recoloured(before, from);
            assert forall|k: int| 0 <= k < before.len() implies self.cache@[k] == goal[k] by {
                crate::parallel::lemma_byte_in_row(before, k, 4, kernel.pixels as int);
                let i = k / 4;
                let row = row_of(before, i, 4);
                assert(pixel_at(row, 0) == pixel_at(before, i));
            }
            assert(self.cache@ =~= goal);
            assert(self@.history =~= old(self)@.history);
        }
        Persist::Everything
    }

    /// Clears the board: the background takes the mode's colour and the
    /// drawing layer becomes transparent. The board file is to be written out
    /// next.
    pub fn clear(&mut self) -> (pending: Persist)
        requires
            old(self).wf(),
        ensures
            final(self).wf(),
            final(self)@ == old(self)@.after_clear(),
            pending == Persist::Canvas,
    {
        assert(self.config.width * self.config.height * 4 == 4 * (self.config.width
            * self.config.height) && self.config.width * self.config.height >= 0)
            by (nonlinear_arith);
        fill(self.cache.as_mut_slice(), self.config.mode.background_color());
        fill(self.drawing_layer.as_mut_slice(), Rgba::transparent());
        self.ink = 0;
        self.viewport_dirty = true;
        proof {
            let pixels = self.config.width * self.config.height;
            lemma_ink_filled(pixels, Rgba::spec_transparent(), pixels);
            assert(self@.history =~= old(self)@.history);
        }
        Persist::Canvas
    }

    /// Renders what the camera shows of the background into `frame`, a screen
    /// of `screen_width` by `screen_height` pixels. The frame of the last
    /// rendering is given again where it still serves.
    pub fn render(&mut self, frame: &mut [u8], screen_width: u32, screen_height: u32)
        requires
            old(self).wf(),
            old(frame)@.len() == byte_len(screen_width as int, screen_height as int),
        ensures
            final(self).wf(),
            final(frame)@ == old(self)@.shown(screen_width, screen_height),
            final(self)@ == old(self)@.after_render(screen_width, screen_height),
    {
        let reuse: bool = !self.viewport_dirty && self.viewport_cache.len() > 0
            && self.cached_viewport_width == screen_width && self.cached_viewport_height
            == screen_height && is_near(self.viewport.position.x, self.cached_viewport.position.x)
            && is_near(self.viewport.position.y, self.cached_viewport.position.y) && is_near(
            self.viewport.zoom as i64,
            self.cached_viewport.zoom as i64,
        );
        if reuse {
            copy_bytes(frame, self.viewport_cache.as_slice());
            return ;
        }
        render_view(
            self.cache.as_slice(),
            self.config.width,
            self.config.height,
            &self.viewport,
            frame,
            screen_width,
            screen_height,
        );
        self.viewport_cache = slice_to_vec(frame);
        self.cached_viewport_width = screen_width;
        self.cached_viewport_height = screen_height;
        self.cached_viewport = self.viewport;
        self.viewport_dirty = false;
        assert(self@.history =~= old(self)@.history);
    }

    /// Lays the drawing layer over a frame that shows the background.
    /// Nothing is done where nothing is drawn.
    pub fn render_drawing_layer(&self, frame: &mut [u8], screen_width: u32, screen_height: u32)
        requires
            self.wf(),
            old(frame)@.len() == byte_len(screen_width as int, screen_height as int),
        ensures
            final(frame)@ == with_drawing(
                old(frame)@,
                self@.drawing,
                self@.width as int,
                self@.height as int,
                self@.viewport,
                screen_width as int,
            ),
    {
        if !self.has_drawings() {
            proof {
                assert(self.config.width * self.config.height * 4 == 4 * (self.config.width
                    * self.config.height)) by (nonlinear_arith);
                lemma_blank_layer_shows_nothing(
                    frame@,
                    self.drawing_layer@,
                    self.config.width as int,
                    self.config.height as int,
                    self.viewport,
                    screen_width as int,
                );
            }
            return ;
        }
        lay_drawing(
            self.drawing_layer.as_slice(),
            self.config.width,
            self.config.height,
            &self.viewport,
            frame,
            screen_width,
            screen_height,
        );
    }
}

} // verus!
