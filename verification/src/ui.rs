//! What is drawn over the board: the legend with its controls, the tray of
//! markers, the poster picker, and the progress of saving.

use vstd::prelude::*;
use crate::color::laid_over;
use crate::color::lay_over;
use crate::color::BoardMode;
use crate::color::Rgba;
use crate::grid::get_pixel;
use crate::grid::pixel_at;
use crate::paint::paint_wide;
use crate::paint::paint_within;
use crate::paint::painted;
use crate::paint::painted_within;
use crate::paint::Shade;
use crate::paint::Solid;
use crate::paint::Tint;
use crate::session::ColorMarker;
use crate::session::RickBoard;
use crate::text::decimal;
use crate::text::decimal_text;
use crate::text::draw_chars;
use crate::text::draw_simple_text;
use crate::text::with_line;

verus! {

/// A filled disk in a square box of side `2 * radius + 1`.
pub struct Disk {
    pub radius: u32,
    pub color: Rgba,
}

/// An image at half its size: each pixel of the box shows the image pixel
/// at twice its offset, laid over what is there with alpha kept. Offsets
/// that lead outside the image's data show nothing.
pub struct Stamp<'a> {
    pub image: &'a Vec<u8>,
    pub image_width: u32,
}

impl Shade for Disk {
    open spec fn ready(&self) -> bool {
        self.radius <= 0x1000_0000
    }

    open spec fn shaded(&self, ox: int, oy: int, under: Rgba) -> Rgba {
        let dx = ox - self.radius;
        let dy = oy - self.radius;
        if dx * dx + dy * dy <= self.radius * self.radius {
            self.color
        } else {
            under
        }
    }

    fn shade(&self, ox: u32, oy: u32, under: Rgba) -> (c: Rgba) {
        let r: i128 = self.radius as i128;
        let dx: i128 = ox as i128 - r;
        let dy: i128 = oy as i128 - r;
        assert(0 <= dx * dx <= 0x1_0000_0000 * 0x1_0000_0000) by (nonlinear_arith)
            requires
                -0x1_0000_0000 <= dx <= 0x1_0000_0000,
        ;
        assert(0 <= dy * dy <= 0x1_0000_0000 * 0x1_0000_0000) by (nonlinear_arith)
            requires
                -0x1_0000_0000 <= dy <= 0x1_0000_0000,
        ;
        assert(0 <= r * r <= 0x1_0000_0000 * 0x1_0000_0000) by (nonlinear_arith)
            requires
                0 <= r <= 0x1_0000_0000,
        ;
        if dx * dx + dy * dy <= r * r {
            self.color
        } else {
            under
        }
    }
}

impl<'a> Shade for Stamp<'a> {
    open spec fn ready(&self) -> bool {
        true
    }

    open spec fn shaded(&self, ox: int, oy: int, under: Rgba) -> Rgba {
        let at = (2 * oy) * self.image_width + 2 * ox;
        if 4 * at + 4 <= self.image@.len() {
            laid_over(pixel_at(self.image@, at), under, false)
        } else {
            under
        }
    }

    fn shade(&self, ox: u32, oy: u32, under: Rgba) -> (c: Rgba) {
        assert(0 <= (2 * oy) * self.image_width <= 0x2_0000_0000 * 0x1_0000_0000)
            by (nonlinear_arith)
            requires
                0 <= oy <= 0xffff_ffff,
                0 <= self.image_width <= 0xffff_ffff,
        ;
        let at: u128 = (2 * oy as u128) * (self.image_width as u128) + 2 * (ox as u128);
        if 4 * at + 4 <= self.image.len() as u128 {
            lay_over(get_pixel(self.image.as_slice(), at as usize), under, false)
        } else {
            under
        }
    }
}

/// The colour of text and lines on a board of the given mode.
pub open spec fn text_color(mode: BoardMode) -> Rgba {
    match mode {
        BoardMode::Blackboard => Rgba::spec_white(),
        BoardMode::Whiteboard => Rgba::spec_black(),
    }
}

/// The colour behind the legend: half transparent black on a blackboard,
/// and white, a little denser, on a whiteboard.
pub open spec fn panel_color(mode: BoardMode) -> Rgba {
    match mode {
        BoardMode::Blackboard => Rgba { r: 0, g: 0, b: 0, a: 128 },
        BoardMode::Whiteboard => Rgba { r: 255, g: 255, b: 255, a: 153 },
    }
}

/// The colour behind the poster picker.
pub open spec fn picker_color(mode: BoardMode) -> Rgba {
    match mode {
        BoardMode::Blackboard => Rgba { r: 0, g: 0, b: 0, a: 200 },
        BoardMode::Whiteboard => Rgba { r: 255, g: 255, b: 255, a: 200 },
    }
}

/// The colour of the progress bar's filled part.
pub open spec fn progress_color(mode: BoardMode) -> Rgba {
    match mode {
        BoardMode::Blackboard => Rgba { r: 220, g: 220, b: 220, a: 255 },
        BoardMode::Whiteboard => Rgba { r: 40, g: 40, b: 40, a: 255 },
    }
}

/// The colour of the progress bar's empty part: a third of the filled
/// part's, channel by channel.
pub open spec fn trough_color(mode: BoardMode) -> Rgba {
    match mode {
        BoardMode::Blackboard => Rgba { r: 73, g: 73, b: 73, a: 255 },
        BoardMode::Whiteboard => Rgba { r: 13, g: 13, b: 13, a: 255 },
    }
}

/// The colour of the slider's knob.
pub open spec fn knob_color() -> Rgba {
    Rgba { r: 255, g: 100, b: 100, a: 255 }
}

/// Where the slider's knob stands for a brush size: 140 pixels for the
/// sizes up to 100, from column 20 on.
pub open spec fn knob_column(brush_size: int) -> int {
    20 + (if brush_size < 100 {
        brush_size
    } else {
        100
    }) * 140 / 100
}

/// The radius of the brush's preview: half the brush size, at most 50.
pub open spec fn preview_radius(brush_size: int) -> int {
    if brush_size / 2 < 50 {
        brush_size / 2
    } else {
        50
    }
}

/// The filled part of the progress bar, of 200 pixels, after `elapsed_ms`
/// of the minute between two saves.
pub open spec fn progress_width(elapsed_ms: int) -> int {
    200 * (if elapsed_ms < 60000 {
        elapsed_ms
    } else {
        60000
    }) / 60000
}

/// The left edge of a box of width `2 * half` in the middle of `extent`,
/// or 0 where it does not fit.
pub open spec fn centred(extent: int, half: int) -> int {
    if extent / 2 >= half {
        extent / 2 - half
    } else {
        0
    }
}

/// The colour of text and lines on a board of the given mode.
pub fn text_color_of(mode: BoardMode) -> (c: Rgba)
    ensures
        c == text_color(mode),
{
    match mode {
        BoardMode::Blackboard => Rgba::white(),
        BoardMode::Whiteboard => Rgba::black(),
    }
}

/// The colour behind the legend.
pub fn panel_color_of(mode: BoardMode) -> (c: Rgba)
    ensures
        c == panel_color(mode),
{
    match mode {
        BoardMode::Blackboard => Rgba { r: 0, g: 0, b: 0, a: 128 },
        BoardMode::Whiteboard => Rgba { r: 255, g: 255, b: 255, a: 153 },
    }
}

/// The colour behind the poster picker.
pub fn picker_color_of(mode: BoardMode) -> (c: Rgba)
    ensures
        c == picker_color(mode),
{
    match mode {
        BoardMode::Blackboard => Rgba { r: 0, g: 0, b: 0, a: 200 },
        BoardMode::Whiteboard => Rgba { r: 255, g: 255, b: 255, a: 200 },
    }
}

/// The colour of the progress bar's filled part.
pub fn progress_color_of(mode: BoardMode) -> (c: Rgba)
    ensures
        c == progress_color(mode),
{
    match mode {
        BoardMode::Blackboard => Rgba { r: 220, g: 220, b: 220, a: 255 },
        BoardMode::Whiteboard => Rgba { r: 40, g: 40, b: 40, a: 255 },
    }
}

/// The colour of the progress bar's empty part.
pub fn trough_color_of(mode: BoardMode) -> (c: Rgba)
    ensures
        c == trough_color(mode),
{
    let full: Rgba = progress_color_of(mode);
    Rgba { r: full.r / 3, g: full.g / 3, b: full.b / 3, a: 255 }
}

/// A frame once a line of text is drawn at `(x, y)`, if `y` is one of the
/// first `height` rows; a line that begins outside them is left out whole.
pub open spec fn with_label(
    frame: Seq<u8>,
    width: int,
    height: int,
    x: int,
    y: int,
    text: Seq<char>,
    color: Rgba,
) -> Seq<u8> {
    if 0 <= y < height {
        with_line(frame, width, x, y, text, color)
    } else {
        frame
    }
}

/// A frame once the outline of a box is drawn, one pixel thick, as far as
/// it lies in the first `height` rows: top, bottom, left, right.
pub open spec fn with_outline(
    frame: Seq<u8>,
    width: int,
    height: int,
    x: int,
    y: int,
    w: int,
    h: int,
    color: Rgba,
) -> Seq<u8> {
    let ink = Solid { color };
    let f = painted_within(frame, width, height, x, y, w, 1, ink);
    let f = painted_within(f, width, height, x, y + h - 1, w, 1, ink);
    let f = painted_within(f, width, height, x, y, 1, h, ink);
    painted_within(f, width, height, x + w - 1, y, 1, h, ink)
}

/// Draws a line of text at `(x, y)` if `y` is one of the first `height`
/// rows.
pub fn draw_label(
    frame: &mut [u8],
    width: u32,
    height: u32,
    x: i128,
    y: i128,
    text: &str,
    color: Rgba,
)
    requires
        -0x1_0000_0000_0000 <= x <= 0x1_0000_0000_0000,
        -0x1_0000_0000_0000 <= y <= 0x1_0000_0000_0000,
    ensures
        final(frame)@ == with_label(
            old(frame)@,
            width as int,
            height as int,
            x as int,
            y as int,
            text@,
            color,
        ),
{
    if y >= 0 && y < height as i128 {
        draw_simple_text(frame, width, x, y, text, color);
    }
}

/// Draws the outline of a box as far as it lies in the first `height` rows.
pub fn draw_outline(
    frame: &mut [u8],
    width: u32,
    height: u32,
    x: i128,
    y: i128,
    w: u32,
    h: u32,
    color: Rgba,
)
    requires
        -0x1_0000_0000_0000 <= x <= 0x1_0000_0000_0000,
        -0x1_0000_0000_0000 <= y <= 0x1_0000_0000_0000,
    ensures
        final(frame)@ == with_outline(
            old(frame)@,
            width as int,
            height as int,
            x as int,
            y as int,
            w as int,
            h as int,
            color,
        ),
{
    let ink = Solid { color };
    paint_within(frame, width, height, x, y, w, 1, &ink);
    paint_within(frame, width, height, x, y + (h as i128) - 1, w, 1, &ink);
    paint_within(frame, width, height, x, y, 1, h, &ink);
    paint_within(frame, width, height, x + (w as i128) - 1, y, 1, h, &ink);
}

/// The text on the button that changes the mode.
pub open spec fn mode_label(mode: BoardMode) -> Seq<char> {
    match mode {
        BoardMode::Blackboard => "Mode: Blackboard"@,
        BoardMode::Whiteboard => "Mode: Whiteboard"@,
    }
}

/// The text at the legend's top edge.
pub open spec fn hint_label(collapsed: bool) -> Seq<char> {
    if collapsed {
        "Click to show"@
    } else {
        "Click to hide"@
    }
}

/// A frame once a number is written at `(x, y)`, if `y` is one of the first
/// `height` rows.
pub open spec fn with_number(
    frame: Seq<u8>,
    width: int,
    height: int,
    x: int,
    y: int,
    n: nat,
    color: Rgba,
) -> Seq<u8> {
    with_label(frame, width, height, x, y, decimal(n), color)
}

/// Writes a number at `(x, y)` if `y` is one of the first `height` rows.
pub fn draw_number(
    frame: &mut [u8],
    width: u32,
    height: u32,
    x: i128,
    y: i128,
    n: u64,
    color: Rgba,
)
    requires
        -0x1_0000_0000_0000 <= x <= 0x1_0000_0000_0000,
        -0x1_0000_0000_0000 <= y <= 0x1_0000_0000_0000,
    ensures
        final(frame)@ == with_number(
            old(frame)@,
            width as int,
            height as int,
            x as int,
            y as int,
            n as nat,
            color,
        ),
{
    if y >= 0 && y < height as i128 {
        let digits: Vec<char> = decimal_text(n);
        draw_chars(frame, width, x, y, digits.as_slice(), color);
    }
}

/// A frame once the legend lies over it: the panel, the list of controls,
/// the frame rate, the brush size with its slider and preview, the buttons
/// for the mode and for the posters, and the hint at the top edge. All of it
/// is shifted up by `offset` rows, and what begins above the first row or
/// below the last is left out.
pub open spec fn with_legend(
    frame: Seq<u8>,
    width: int,
    height: int,
    mode: BoardMode,
    brush_size: int,
    collapsed: bool,
    offset: int,
    fps_text: Seq<char>,
) -> Seq<u8> {
    let up = -offset;
    let ink = text_color(mode);
    let radius = preview_radius(brush_size);
    let f = painted_within(frame, width, height, 10, up, 280, 280, Tint { color: panel_color(mode) });
    let f = with_label(f, width, height, 20, 20 + up, "CONTROLS:"@, ink);
    let f = with_label(f, width, height, 20, 35 + up, "Left Click: Draw"@, ink);
    let f = with_label(f, width, height, 20, 48 + up, "Right Click: Erase"@, ink);
    let f = with_label(f, width, height, 20, 61 + up, "WASD: Pan"@, ink);
    let f = with_label(f, width, height, 20, 74 + up, "Mouse Wheel: Zoom"@, ink);
    let f = with_label(f, width, height, 20, 87 + up, "+ - Keys: Brush Size"@, ink);
    let f = with_label(f, width, height, 20, 100 + up, "C Key: Clear Board"@, ink);
    let f = with_label(f, width, height, 20, 113 + up, "P Key: Save"@, ink);
    let f = with_label(f, width, height, 20, 126 + up, "ESC: Exit"@, ink);
    let f = with_label(f, width, height, 210, 20 + up, fps_text, ink);
    let f = with_label(f, width, height, 20, 139 + up, "Brush: "@, ink);
    let f = with_number(f, width, height, 62, 139 + up, brush_size as nat, ink);
    let f = painted_within(f, width, height, 20, 155 + up, 140, 3, Solid { color: ink });
    let f = painted_within(f, width, height, knob_column(brush_size) - 2, 151 + up, 5, 11, Solid { color: knob_color() });
    let f = painted_within(f, width, height, 210 - radius, 86 + up - radius, 2 * radius + 1, 2 * radius + 1, Disk { radius: radius as u32, color: ink });
    let f = with_label(f, width, height, 30, 175 + up, mode_label(mode), ink);
    let f = with_outline(f, width, height, 20, 170 + up, 115, 20, ink);
    let f = with_label(f, width, height, 150, 175 + up, "Posters"@, ink);
    let f = with_outline(f, width, height, 145, 170 + up, 65, 20, ink);
    let f = with_label(f, width, height, 20, 205 + up, "Poster Controls:"@, ink);
    let f = with_label(f, width, height, 20, 220 + up, "Ctrl+Click: Move"@, ink);
    let f = with_label(f, width, height, 20, 235 + up, "Ctrl+Wheel: Scale"@, ink);
    let f = with_label(f, width, height, 20, 250 + up, "Ctrl+RClick: Delete"@, ink);
    with_label(f, width, height, 100, 5 + up, hint_label(collapsed), ink)
}

/// Draws the legend.
pub fn draw_legend(
    frame: &mut [u8],
    width: u32,
    height: u32,
    mode: BoardMode,
    brush_size: u32,
    collapsed: bool,
    offset: u32,
    fps_text: &str,
)
    ensures
        final(frame)@ == with_legend(
            old(frame)@,
            width as int,
            height as int,
            mode,
            brush_size as int,
            collapsed,
            offset as int,
            fps_text@,
        ),
{
    let up: i128 = -(offset as i128);
    let ink: Rgba = text_color_of(mode);
    let capped: u32 = if brush_size < 100 {
        brush_size
    } else {
        100
    };
    let knob: i128 = 20 + (capped as i128 * 140) / 100;
    let radius: u32 = if brush_size / 2 < 50 {
        brush_size / 2
    } else {
        50
    };
    paint_within(frame, width, height, 10, up, 280, 280, &Tint { color: panel_color_of(mode) });
    draw_label(frame, width, height, 20, 20 + up, "CONTROLS:", ink);
    draw_label(frame, width, height, 20, 35 + up, "Left Click: Draw", ink);
    draw_label(frame, width, height, 20, 48 + up, "Right Click: Erase", ink);
    draw_label(frame, width, height, 20, 61 + up, "WASD: Pan", ink);
    draw_label(frame, width, height, 20, 74 + up, "Mouse Wheel: Zoom", ink);
    draw_label(frame, width, height, 20, 87 + up, "+ - Keys: Brush Size", ink);
    draw_label(frame, width, height, 20, 100 + up, "C Key: Clear Board", ink);
    draw_label(frame, width, height, 20, 113 + up, "P Key: Save", ink);
    draw_label(frame, width, height, 20, 126 + up, "ESC: Exit", ink);
    draw_label(frame, width, height, 210, 20 + up, fps_text, ink);
    draw_label(frame, width, height, 20, 139 + up, "Brush: ", ink);
    draw_number(frame, width, height, 62, 139 + up, brush_size as u64, ink);
    paint_within(frame, width, height, 20, 155 + up, 140, 3, &Solid { color: ink });
    paint_within(frame, width, height, knob - 2, 151 + up, 5, 11, &Solid { color: Rgba { r: 255, g: 100, b: 100, a: 255 } });
    paint_within(frame, width, height, 210 - radius as i128, 86 + up - radius as i128, 2 * radius + 1, 2 * radius + 1, &Disk { radius, color: ink });
    match mode {
        BoardMode::Blackboard => draw_label(frame, width, height, 30, 175 + up, "Mode: Blackboard", ink),
        BoardMode::Whiteboard => draw_label(frame, width, height, 30, 175 + up, "Mode: Whiteboard", ink),
    }
    draw_outline(frame, width, height, 20, 170 + up, 115, 20, ink);
    draw_label(frame, width, height, 150, 175 + up, "Posters", ink);
    draw_outline(frame, width, height, 145, 170 + up, 65, 20, ink);
    draw_label(frame, width, height, 20, 205 + up, "Poster Controls:", ink);
    draw_label(frame, width, height, 20, 220 + up, "Ctrl+Click: Move", ink);
    draw_label(frame, width, height, 20, 235 + up, "Ctrl+Wheel: Scale", ink);
    draw_label(frame, width, height, 20, 250 + up, "Ctrl+RClick: Delete", ink);
    if collapsed {
        draw_label(frame, width, height, 100, 5 + up, "Click to show", ink);
    } else {
        draw_label(frame, width, height, 100, 5 + up, "Click to hide", ink);
    }
}

/// A frame once the first `n` markers of the tray are drawn along the
/// bottom edge, at half their size, five pixels apart, their lowest ten
/// rows below the edge. The selected marker shows its open image, the
/// others their closed one.
pub open spec fn with_markers(
    frame: Seq<u8>,
    markers: Seq<ColorMarker>,
    selected: int,
    width: int,
    height: int,
    n: int,
) -> Seq<u8>
    decreases n,
{
    if n <= 0 {
        frame
    } else {
        let i = n - 1;
        let marker = markers[i];
        let w = marker.width as int / 2;
        let h = marker.height as int / 2;
        painted_within(
            with_markers(frame, markers, selected, width, height, n - 1),
            width,
            height,
            5 + i * (w + 5),
            height - h + 10,
            w,
            h,
            Stamp {
                image: if i == selected {
                    &marker.open_image
                } else {
                    &marker.closed_image
                },
                image_width: marker.width,
            },
        )
    }
}

/// Draws the tray of markers along the bottom edge.
pub fn render_markers(
    frame: &mut [u8],
    markers: &Vec<ColorMarker>,
    selected: usize,
    width: u32,
    height: u32,
)
    ensures
        final(frame)@ == with_markers(
            old(frame)@,
            markers@,
            selected as int,
            width as int,
            height as int,
            markers@.len() as int,
        ),
{
    let mut i: usize = 0;
    while i < markers.len()
        invariant
            i <= markers@.len(),
            frame@ == with_markers(
                old(frame)@,
                markers@,
                selected as int,
                width as int,
                height as int,
                i as int,
            ),
        decreases markers@.len() - i,
    {
        let marker = &markers[i];
        let w: u32 = marker.width / 2;
        let h: u32 = marker.height / 2;
        assert(0 <= i * (w + 5) <= 0x1_0000_0000_0000_0000 * 0x2_0000_0000) by (nonlinear_arith)
            requires
                0 <= i <= 0x1_0000_0000_0000_0000,
                0 <= w <= 0xffff_ffff,
        ;
        let x: i128 = 5 + (i as i128) * (w as i128 + 5);
        let y: i128 = height as i128 - h as i128 + 10;
        let stamp = Stamp {
            image: if i == selected {
                &marker.open_image
            } else {
                &marker.closed_image
            },
            image_width: marker.width,
        };
        paint_within(frame, width, height, x, y, w, h, &stamp);
        i = i + 1;
    }
}

/// A frame once the outline of a box is drawn, one pixel thick: top,
/// bottom, left, right.
pub open spec fn with_border(
    frame: Seq<u8>,
    width: int,
    x: int,
    y: int,
    w: int,
    h: int,
    color: Rgba,
) -> Seq<u8> {
    let ink = Solid { color };
    let f = painted(frame, width, x, y, w, 1, ink);
    let f = painted(f, width, x, y + h - 1, w, 1, ink);
    let f = painted(f, width, x, y, 1, h, ink);
    painted(f, width, x + w - 1, y, 1, h, ink)
}

/// Draws the outline of a box.
pub fn draw_border(frame: &mut [u8], width: u32, x: i128, y: i128, w: u32, h: u32, color: Rgba)
    requires
        -0x1_0000_0000_0000 <= x <= 0x1_0000_0000_0000,
        -0x1_0000_0000_0000 <= y <= 0x1_0000_0000_0000,
    ensures
        final(frame)@ == with_border(
            old(frame)@,
            width as int,
            x as int,
            y as int,
            w as int,
            h as int,
            color,
        ),
{
    let ink = Solid { color };
    paint_wide(frame, width, x, y, w, 1, &ink);
    paint_wide(frame, width, x, y + (h as i128) - 1, w, 1, &ink);
    paint_wide(frame, width, x, y, 1, h, &ink);
    paint_wide(frame, width, x + (w as i128) - 1, y, 1, h, &ink);
}

/// A frame once the first `n` entries of the poster picker's list are
/// written: entry `i` twenty rows below the one before, as its number from
/// one on, a full stop, a blank, and the poster's name.
pub open spec fn with_entries(
    frame: Seq<u8>,
    width: int,
    entries: Seq<(String, String)>,
    x: int,
    y: int,
    color: Rgba,
    n: int,
) -> Seq<u8>
    decreases n,
{
    if n <= 0 {
        frame
    } else {
        let i = n - 1;
        let number = decimal((i + 1) as nat);
        let row = y + 20 * i;
        let f = with_entries(frame, width, entries, x, y, color, n - 1);
        let f = with_line(f, width, x, row, number, color);
        let f = with_line(f, width, x + 6 * number.len(), row, ". "@, color);
        with_line(f, width, x + 6 * (number.len() + 2), row, entries[i].0@, color)
    }
}

/// A frame once the poster picker lies over a screen of `width` by
/// `height`: a panel of 400 by 300 pixels in the middle, its border, its
/// title, the list of posters and a last line.
pub open spec fn with_poster_picker(
    frame: Seq<u8>,
    width: int,
    height: int,
    mode: BoardMode,
    entries: Seq<(String, String)>,
) -> Seq<u8> {
    let x = centred(width, 200);
    let y = centred(height, 150);
    let ink = text_color(mode);
    let f = painted(frame, width, x, y, 400, 300, Tint { color: picker_color(mode) });
    let f = with_border(f, width, x, y, 400, 300, ink);
    let f = with_line(f, width, x + 10, y + 10, "Select a Poster:"@, ink);
    let f = with_entries(f, width, entries, x + 20, y + 40, ink, entries.len() as int);
    with_line(f, width, x + 10, y + 275, "Click poster name to select"@, ink)
}

/// Draws the poster picker.
pub fn draw_poster_picker(
    frame: &mut [u8],
    width: u32,
    height: u32,
    mode: BoardMode,
    entries: &Vec<(String, String)>,
)
    ensures
        final(frame)@ == with_poster_picker(
            old(frame)@,
            width as int,
            height as int,
            mode,
            entries@,
        ),
{
    let x: i128 = if width / 2 >= 200 {
        (width / 2 - 200) as i128
    } else {
        0
    };
    let y: i128 = if height / 2 >= 150 {
        (height / 2 - 150) as i128
    } else {
        0
    };
    let ink: Rgba = text_color_of(mode);
    paint_wide(frame, width, x, y, 400, 300, &Tint { color: picker_color_of(mode) });
    draw_border(frame, width, x, y, 400, 300, ink);
    draw_simple_text(frame, width, x + 10, y + 10, "Select a Poster:", ink);
    let ghost titled = frame@;
    let mut i: usize = 0;
    while i < entries.len()
        invariant
            i <= entries@.len(),
            0 <= x <= 0x1_0000_0000,
            0 <= y <= 0x1_0000_0000,
            frame@ == with_entries(
                titled,
                width as int,
                entries@,
                x + 20,
                y + 40,
                ink,
                i as int,
            ),
        decreases entries@.len() - i,
    {
        let number: Vec<char> = decimal_text(i as u64 + 1);
        let row: i128 = y + 40 + 20 * (i as i128);
        let digits: i128 = number.len() as i128;
        draw_chars(frame, width, x + 20, row, number.as_slice(), ink);
        draw_simple_text(frame, width, x + 20 + 6 * digits, row, ". ", ink);
        draw_simple_text(frame, width, x + 20 + 6 * (digits + 2), row, entries[i].0.as_str(), ink);
        i = i + 1;
    }
    draw_simple_text(frame, width, x + 10, y + 275, "Click poster name to select", ink);
}

/// A frame once the progress of saving is drawn at the top of a screen
/// `width` wide: a bar of 200 by 6 pixels in the middle, its left part
/// filled as far as the minute between two saves has passed, and below it,
/// while the board is being saved, a note that says so.
pub open spec fn with_save_progress(
    frame: Seq<u8>,
    width: int,
    mode: BoardMode,
    elapsed_ms: int,
    is_saving: bool,
) -> Seq<u8> {
    let x = width / 2 - 100;
    let f = painted(frame, width, x, 10, 200, 6, Solid { color: trough_color(mode) });
    let f = painted(
        f,
        width,
        x,
        10,
        progress_width(elapsed_ms),
        6,
        Solid { color: progress_color(mode) },
    );
    if is_saving {
        let f = painted(f, width, x + 60, 21, 80, 15, Tint { color: panel_color(mode) });
        with_line(f, width, x + 68, 24, "Saving..."@, progress_color(mode))
    } else {
        f
    }
}

/// Draws the progress of saving.
pub fn draw_save_progress(
    frame: &mut [u8],
    width: u32,
    mode: BoardMode,
    elapsed_ms: u32,
    is_saving: bool,
)
    ensures
        final(frame)@ == with_save_progress(
            old(frame)@,
            width as int,
            mode,
            elapsed_ms as int,
            is_saving,
        ),
{
    let x: i128 = (width / 2) as i128 - 100;
    let capped: u32 = if elapsed_ms < 60000 {
        elapsed_ms
    } else {
        60000
    };
    let filled: u32 = 200 * capped / 60000;
    paint_wide(frame, width, x, 10, 200, 6, &Solid { color: trough_color_of(mode) });
    paint_wide(frame, width, x, 10, filled, 6, &Solid { color: progress_color_of(mode) });
    if is_saving {
        paint_wide(frame, width, x + 60, 21, 80, 15, &Tint { color: panel_color_of(mode) });
        draw_simple_text(frame, width, x + 68, 24, "Saving...", progress_color_of(mode));
    }
}

impl RickBoard {
    /// A frame once everything that lies over the board is drawn: the
    /// legend, the tray of markers, and the poster picker where it is open.
    pub open spec fn with_ui_overlay(
        &self,
        frame: Seq<u8>,
        width: int,
        height: int,
        fps_text: Seq<char>,
    ) -> Seq<u8> {
        let f = with_legend(
            frame,
            width,
            height,
            self.board@.mode,
            self.drawing_tool.brush_size as int,
            self.legend_collapsed,
            self.legend_offset as int,
            fps_text,
        );
        let f = with_markers(
            f,
            self.markers@,
            self.drawing_tool.selected_marker_index as int,
            width,
            height,
            self.markers@.len() as int,
        );
        if self.show_poster_picker {
            with_poster_picker(f, width, height, self.board@.mode, self.available_posters@)
        } else {
            f
        }
    }

    /// Draws the legend and the controls over a frame. `fps_text` is the
    /// line that gives the frame rate.
    pub fn render_ui_overlay(&self, frame: &mut [u8], width: u32, height: u32, fps_text: &str)
        ensures
            final(frame)@ == self.with_ui_overlay(
                old(frame)@,
                width as int,
                height as int,
                fps_text@,
            ),
    {
        draw_legend(
            frame,
            width,
            height,
            self.board.mode(),
            self.drawing_tool.brush_size,
            self.legend_collapsed,
            self.legend_offset,
            fps_text,
        );
        self.render_markers(frame, width, height);
        if self.show_poster_picker {
            self.render_poster_picker(frame, width, height);
        }
    }

    /// Draws the tray of markers along the bottom edge.
    pub fn render_markers(&self, frame: &mut [u8], width: u32, height: u32)
        ensures
            final(frame)@ == with_markers(
                old(frame)@,
                self.markers@,
                self.drawing_tool.selected_marker_index as int,
                width as int,
                height as int,
                self.markers@.len() as int,
            ),
    {
        render_markers(
            frame,
            &self.markers,
            self.drawing_tool.selected_marker_index,
            width,
            height,
        );
    }

    /// Draws the poster picker.
    pub fn render_poster_picker(&self, frame: &mut [u8], width: u32, height: u32)
        ensures
            final(frame)@ == with_poster_picker(
                old(frame)@,
                width as int,
                height as int,
                self.board@.mode,
                self.available_posters@,
            ),
    {
        draw_poster_picker(frame, width, height, self.board.mode(), &self.available_posters);
    }

    /// Draws the progress of saving: how much of the minute between two
    /// saves has passed, and whether the board is being saved.
    pub fn render_save_progress(
        &self,
        frame: &mut [u8],
        width: u32,
        elapsed_ms: u32,
        is_saving: bool,
    )
        ensures
            final(frame)@ == with_save_progress(
                old(frame)@,
                width as int,
                self.board@.mode,
                elapsed_ms as int,
                is_saving,
            ),
    {
        draw_save_progress(frame, width, self.board.mode(), elapsed_ms, is_saving);
    }
}

} // verus!
