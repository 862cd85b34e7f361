//! The bitmap font: glyphs of five by seven pixels, lines of them, and
//! numbers written out in them.

use vstd::prelude::*;
use crate::color::Rgba;
use crate::paint::lemma_painted_off_frame;
use crate::paint::paint_wide;
use crate::paint::painted;
use crate::paint::Shade;

verus! {

/// The width of a glyph, in pixels.
pub const GLYPH_WIDTH: u32 = 5;

/// The height of a glyph, in pixels.
pub const GLYPH_HEIGHT: u32 = 7;

/// The distance from one glyph of a line to the next, in pixels.
pub const GLYPH_ADVANCE: u32 = 6;

/// The seven rows of the glyph of `ch`, from the top. Each row holds its
/// five pixels in the low five bits, the leftmost in the highest of them.
/// Letters look the same in both cases, and a character without a glyph of
/// its own is a box.
pub open spec fn glyph_rows(ch: char) -> Seq<u8> {
    if ch == 'A' || ch == 'a' {
        seq![0b01110u8, 0b10001u8, 0b10001u8, 0b11111u8, 0b10001u8, 0b10001u8, 0b10001u8]
    } else if ch == 'B' || ch == 'b' {
        seq![0b11110u8, 0b10001u8, 0b10001u8, 0b11110u8, 0b10001u8, 0b10001u8, 0b11110u8]
    } else if ch == 'C' || ch == 'c' {
        seq![0b01110u8, 0b10001u8, 0b10000u8, 0b10000u8, 0b10000u8, 0b10001u8, 0b01110u8]
    } else if ch == 'D' || ch == 'd' {
        seq![0b11110u8, 0b10001u8, 0b10001u8, 0b10001u8, 0b10001u8, 0b10001u8, 0b11110u8]
    } else if ch == 'E' || ch == 'e' {
        seq![0b11111u8, 0b10000u8, 0b10000u8, 0b11110u8, 0b10000u8, 0b10000u8, 0b11111u8]
    } else if ch == 'F' || ch == 'f' {
        seq![0b11111u8, 0b10000u8, 0b10000u8, 0b11110u8, 0b10000u8, 0b10000u8, 0b10000u8]
    } else if ch == 'G' || ch == 'g' {
        seq![0b01110u8, 0b10001u8, 0b10000u8, 0b10111u8, 0b10001u8, 0b10001u8, 0b01110u8]
    } else if ch == 'H' || ch == 'h' {
        seq![0b10001u8, 0b10001u8, 0b10001u8, 0b11111u8, 0b10001u8, 0b10001u8, 0b10001u8]
    } else if ch == 'I' || ch == 'i' {
        seq![0b01110u8, 0b00100u8, 0b00100u8, 0b00100u8, 0b00100u8, 0b00100u8, 0b01110u8]
    } else if ch == 'K' || ch == 'k' {
        seq![0b10001u8, 0b10010u8, 0b10100u8, 0b11000u8, 0b10100u8, 0b10010u8, 0b10001u8]
    } else if ch == 'L' || ch == 'l' {
        seq![0b10000u8, 0b10000u8, 0b10000u8, 0b10000u8, 0b10000u8, 0b10000u8, 0b11111u8]
    } else if ch == 'M' || ch == 'm' {
        seq![0b10001u8, 0b11011u8, 0b10101u8, 0b10101u8, 0b10001u8, 0b10001u8, 0b10001u8]
    } else if ch == 'N' || ch == 'n' {
        seq![0b10001u8, 0b11001u8, 0b10101u8, 0b10101u8, 0b10011u8, 0b10001u8, 0b10001u8]
    } else if ch == 'O' || ch == 'o' {
        seq![0b01110u8, 0b10001u8, 0b10001u8, 0b10001u8, 0b10001u8, 0b10001u8, 0b01110u8]
    } else if ch == 'P' || ch == 'p' {
        seq![0b11110u8, 0b10001u8, 0b10001u8, 0b11110u8, 0b10000u8, 0b10000u8, 0b10000u8]
    } else if ch == 'R' || ch == 'r' {
        seq![0b11110u8, 0b10001u8, 0b10001u8, 0b11110u8, 0b10100u8, 0b10010u8, 0b10001u8]
    } else if ch == 'S' || ch == 's' {
        seq![0b01111u8, 0b10000u8, 0b10000u8, 0b01110u8, 0b00001u8, 0b00001u8, 0b11110u8]
    } else if ch == 'T' || ch == 't' {
        seq![0b11111u8, 0b00100u8, 0b00100u8, 0b00100u8, 0b00100u8, 0b00100u8, 0b00100u8]
    } else if ch == 'U' || ch == 'u' {
        seq![0b10001u8, 0b10001u8, 0b10001u8, 0b10001u8, 0b10001u8, 0b10001u8, 0b01110u8]
    } else if ch == 'W' || ch == 'w' {
        seq![0b10001u8, 0b10001u8, 0b10001u8, 0b10101u8, 0b10101u8, 0b11011u8, 0b10001u8]
    } else if ch == 'X' || ch == 'x' {
        seq![0b10001u8, 0b10001u8, 0b01010u8, 0b00100u8, 0b01010u8, 0b10001u8, 0b10001u8]
    } else if ch == 'Y' || ch == 'y' {
        seq![0b10001u8, 0b10001u8, 0b01010u8, 0b00100u8, 0b00100u8, 0b00100u8, 0b00100u8]
    } else if ch == 'Z' || ch == 'z' {
        seq![0b11111u8, 0b00001u8, 0b00010u8, 0b00100u8, 0b01000u8, 0b10000u8, 0b11111u8]
    } else if ch == '0' {
        seq![0b01110u8, 0b10001u8, 0b10011u8, 0b10101u8, 0b11001u8, 0b10001u8, 0b01110u8]
    } else if ch == '1' {
        seq![0b00100u8, 0b01100u8, 0b00100u8, 0b00100u8, 0b00100u8, 0b00100u8, 0b01110u8]
    } else if ch == '2' {
        seq![0b01110u8, 0b10001u8, 0b00001u8, 0b00010u8, 0b00100u8, 0b01000u8, 0b11111u8]
    } else if ch == '3' {
        seq![0b11111u8, 0b00010u8, 0b00100u8, 0b00010u8, 0b00001u8, 0b10001u8, 0b01110u8]
    } else if ch == '4' {
        seq![0b00010u8, 0b00110u8, 0b01010u8, 0b10010u8, 0b11111u8, 0b00010u8, 0b00010u8]
    } else if ch == '5' {
        seq![0b11111u8, 0b10000u8, 0b11110u8, 0b00001u8, 0b00001u8, 0b10001u8, 0b01110u8]
    } else if ch == '6' {
        seq![0b00110u8, 0b01000u8, 0b10000u8, 0b11110u8, 0b10001u8, 0b10001u8, 0b01110u8]
    } else if ch == '7' {
        seq![0b11111u8, 0b00001u8, 0b00010u8, 0b00100u8, 0b01000u8, 0b01000u8, 0b01000u8]
    } else if ch == '8' {
        seq![0b01110u8, 0b10001u8, 0b10001u8, 0b01110u8, 0b10001u8, 0b10001u8, 0b01110u8]
    } else if ch == '9' {
        seq![0b01110u8, 0b10001u8, 0b10001u8, 0b01111u8, 0b00001u8, 0b00010u8, 0b01100u8]
    } else if ch == ':' {
        seq![0b00000u8, 0b00100u8, 0b00000u8, 0b00000u8, 0b00000u8, 0b00100u8, 0b00000u8]
    } else if ch == '+' {
        seq![0b00000u8, 0b00100u8, 0b00100u8, 0b11111u8, 0b00100u8, 0b00100u8, 0b00000u8]
    } else if ch == '-' || ch == '/' {
        seq![0b00000u8, 0b00000u8, 0b00000u8, 0b11111u8, 0b00000u8, 0b00000u8, 0b00000u8]
    } else if ch == ' ' {
        seq![0b00000u8, 0b00000u8, 0b00000u8, 0b00000u8, 0b00000u8, 0b00000u8, 0b00000u8]
    } else {
        seq![0b11111u8, 0b10001u8, 0b10001u8, 0b10001u8, 0b10001u8, 0b10001u8, 0b11111u8]
    }
}

/// The rows of the glyph of `ch`.
pub fn glyph(ch: char) -> (rows: [u8; 7])
    ensures
        rows@ == glyph_rows(ch),
{
    let rows: [u8; 7] = match ch {
        'A' | 'a' => [0b01110, 0b10001, 0b10001, 0b11111, 0b10001, 0b10001, 0b10001],
        'B' | 'b' => [0b11110, 0b10001, 0b10001, 0b11110, 0b10001, 0b10001, 0b11110],
        'C' | 'c' => [0b01110, 0b10001, 0b10000, 0b10000, 0b10000, 0b10001, 0b01110],
        'D' | 'd' => [0b11110, 0b10001, 0b10001, 0b10001, 0b10001, 0b10001, 0b11110],
        'E' | 'e' => [0b11111, 0b10000, 0b10000, 0b11110, 0b10000, 0b10000, 0b11111],
        'F' | 'f' => [0b11111, 0b10000, 0b10000, 0b11110, 0b10000, 0b10000, 0b10000],
        'G' | 'g' => [0b01110, 0b10001, 0b10000, 0b10111, 0b10001, 0b10001, 0b01110],
        'H' | 'h' => [0b10001, 0b10001, 0b10001, 0b11111, 0b10001, 0b10001, 0b10001],
        'I' | 'i' => [0b01110, 0b00100, 0b00100, 0b00100, 0b00100, 0b00100, 0b01110],
        'K' | 'k' => [0b10001, 0b10010, 0b10100, 0b11000, 0b10100, 0b10010, 0b10001],
        'L' | 'l' => [0b10000, 0b10000, 0b10000, 0b10000, 0b10000, 0b10000, 0b11111],
        'M' | 'm' => [0b10001, 0b11011, 0b10101, 0b10101, 0b10001, 0b10001, 0b10001],
        'N' | 'n' => [0b10001, 0b11001, 0b10101, 0b10101, 0b10011, 0b10001, 0b10001],
        'O' | 'o' => [0b01110, 0b10001, 0b10001, 0b10001, 0b10001, 0b10001, 0b01110],
        'P' | 'p' => [0b11110, 0b10001, 0b10001, 0b11110, 0b10000, 0b10000, 0b10000],
        'R' | 'r' => [0b11110, 0b10001, 0b10001, 0b11110, 0b10100, 0b10010, 0b10001],
        'S' | 's' => [0b01111, 0b10000, 0b10000, 0b01110, 0b00001, 0b00001, 0b11110],
        'T' | 't' => [0b11111, 0b00100, 0b00100, 0b00100, 0b00100, 0b00100, 0b00100],
        'U' | 'u' => [0b10001, 0b10001, 0b10001, 0b10001, 0b10001, 0b10001, 0b01110],
        'W' | 'w' => [0b10001, 0b10001, 0b10001, 0b10101, 0b10101, 0b11011, 0b10001],
        'X' | 'x' => [0b10001, 0b10001, 0b01010, 0b00100, 0b01010, 0b10001, 0b10001],
        'Y' | 'y' => [0b10001, 0b10001, 0b01010, 0b00100, 0b00100, 0b00100, 0b00100],
        'Z' | 'z' => [0b11111, 0b00001, 0b00010, 0b00100, 0b01000, 0b10000, 0b11111],
        '0' => [0b01110, 0b10001, 0b10011, 0b10101, 0b11001, 0b10001, 0b01110],
        '1' => [0b00100, 0b01100, 0b00100, 0b00100, 0b00100, 0b00100, 0b01110],
        '2' => [0b01110, 0b10001, 0b00001, 0b00010, 0b00100, 0b01000, 0b11111],
        '3' => [0b11111, 0b00010, 0b00100, 0b00010, 0b00001, 0b10001, 0b01110],
        '4' => [0b00010, 0b00110, 0b01010, 0b10010, 0b11111, 0b00010, 0b00010],
        '5' => [0b11111, 0b10000, 0b11110, 0b00001, 0b00001, 0b10001, 0b01110],
        '6' => [0b00110, 0b01000, 0b10000, 0b11110, 0b10001, 0b10001, 0b01110],
        '7' => [0b11111, 0b00001, 0b00010, 0b00100, 0b01000, 0b01000, 0b01000],
        '8' => [0b01110, 0b10001, 0b10001, 0b01110, 0b10001, 0b10001, 0b01110],
        '9' => [0b01110, 0b10001, 0b10001, 0b01111, 0b00001, 0b00010, 0b01100],
        ':' => [0b00000, 0b00100, 0b00000, 0b00000, 0b00000, 0b00100, 0b00000],
        '+' => [0b00000, 0b00100, 0b00100, 0b11111, 0b00100, 0b00100, 0b00000],
        '-' | '/' => [0b00000, 0b00000, 0b00000, 0b11111, 0b00000, 0b00000, 0b00000],
        ' ' => [0b00000, 0b00000, 0b00000, 0b00000, 0b00000, 0b00000, 0b00000],
        _ => [0b11111, 0b10001, 0b10001, 0b10001, 0b10001, 0b10001, 0b11111],
    };
    assert(rows@ =~= glyph_rows(ch));
    rows
}

/// Whether the pixel at offset `(ox, oy)` of the glyph of `ch` is set.
pub open spec fn glyph_bit(ch: char, ox: int, oy: int) -> bool {
    0 <= ox < 5 && 0 <= oy < 7 && (glyph_rows(ch)[oy] >> ((4 - ox) as u8)) & 1u8 == 1u8
}

/// One character in one colour: the set pixels of its glyph take the
/// colour, and the others stay.
pub struct Glyph {
    pub ch: char,
    pub color: Rgba,
}

impl Shade for Glyph {
    open spec fn ready(&self) -> bool {
        true
    }

    open spec fn shaded(&self, ox: int, oy: int, under: Rgba) -> Rgba {
        if glyph_bit(self.ch, ox, oy) {
            self.color
        } else {
            under
        }
    }

    fn shade(&self, ox: u32, oy: u32, under: Rgba) -> (c: Rgba) {
        if ox < 5 && oy < 7 {
            let rows: [u8; 7] = glyph(self.ch);
            let bits: u8 = rows[oy as usize];
            let by: u8 = (4 - ox) as u8;
            if (bits >> by) & 1u8 == 1u8 {
                self.color
            } else {
                under
            }
        } else {
            under
        }
    }
}

/// A frame once the glyph of `ch` is drawn with its corner at `(x, y)`.
pub open spec fn with_char(
    frame: Seq<u8>,
    width: int,
    x: int,
    y: int,
    ch: char,
    color: Rgba,
) -> Seq<u8> {
    painted(frame, width, x, y, 5, 7, Glyph { ch, color })
}

/// A frame once the first `n` characters of `text` are drawn in a line that
/// begins at `(x, y)`, each `GLYPH_ADVANCE` pixels to the right of the one
/// before.
pub open spec fn with_text(
    frame: Seq<u8>,
    width: int,
    x: int,
    y: int,
    text: Seq<char>,
    color: Rgba,
    n: int,
) -> Seq<u8>
    decreases n,
{
    if n <= 0 {
        frame
    } else {
        with_char(
            with_text(frame, width, x, y, text, color, n - 1),
            width,
            x + 6 * (n - 1),
            y,
            text[n - 1],
            color,
        )
    }
}

/// A frame once the whole of `text` is drawn in a line that begins at
/// `(x, y)`.
pub open spec fn with_line(
    frame: Seq<u8>,
    width: int,
    x: int,
    y: int,
    text: Seq<char>,
    color: Rgba,
) -> Seq<u8> {
    with_text(frame, width, x, y, text, color, text.len() as int)
}

/// The character of a decimal digit.
pub open spec fn digit_char(d: int) -> char {
    if d == 0 {
        '0'
    } else if d == 1 {
        '1'
    } else if d == 2 {
        '2'
    } else if d == 3 {
        '3'
    } else if d == 4 {
        '4'
    } else if d == 5 {
        '5'
    } else if d == 6 {
        '6'
    } else if d == 7 {
        '7'
    } else if d == 8 {
        '8'
    } else {
        '9'
    }
}

/// A number written out in decimal digits, without leading zeros.
pub open spec fn decimal(n: nat) -> Seq<char>
    decreases n,
{
    if n < 10 {
        seq![digit_char(n as int)]
    } else {
        decimal(n / 10).push(digit_char(n as int % 10))
    }
}

/// The character of the decimal digit `d`.
pub fn digit(d: u64) -> (ch: char)
    requires
        d < 10,
    ensures
        ch == digit_char(d as int),
{
    if d == 0 {
        '0'
    } else if d == 1 {
        '1'
    } else if d == 2 {
        '2'
    } else if d == 3 {
        '3'
    } else if d == 4 {
        '4'
    } else if d == 5 {
        '5'
    } else if d == 6 {
        '6'
    } else if d == 7 {
        '7'
    } else if d == 8 {
        '8'
    } else {
        '9'
    }
}

/// Writes a number out in decimal digits behind what `out` holds.
pub fn push_decimal(n: u64, out: &mut Vec<char>)
    ensures
        final(out)@ == old(out)@ + decimal(n as nat),
    decreases n,
{
    if n >= 10 {
        push_decimal(n / 10, out);
    }
    out.push(digit(n % 10));
    assert(out@ =~= old(out)@ + decimal(n as nat));
}

/// A number written out in decimal digits.
pub fn decimal_text(n: u64) -> (text: Vec<char>)
    ensures
        text@ == decimal(n as nat),
{
    let mut text: Vec<char> = Vec::new();
    push_decimal(n, &mut text);
    assert(text@ =~= decimal(n as nat));
    text
}

/// Draws one character with its corner at `(x, y)`.
pub fn draw_char(frame: &mut [u8], width: u32, x: i128, y: i128, ch: char, color: Rgba)
    requires
        -0x1_0000_0000_0000_0000_0000_0000_0000_00 <= x <= 0x1_0000_0000_0000_0000_0000_0000_0000_00,
        -0x1_0000_0000_0000_0000_0000_0000_0000_00 <= y <= 0x1_0000_0000_0000_0000_0000_0000_0000_00,
    ensures
        final(frame)@ == with_char(old(frame)@, width as int, x as int, y as int, ch, color),
{
    let shape = Glyph { ch, color };
    paint_wide(frame, width, x, y, 5, 7, &shape);
}

/// A character that begins to the right of the rows changes nothing,
/// wherever exactly it begins.
proof fn lemma_char_off_frame(
    frame: Seq<u8>,
    width: int,
    x: int,
    other: int,
    y: int,
    ch: char,
    color: Rgba,
)
    requires
        x >= width,
        other >= width,
    ensures
        with_char(frame, width, x, y, ch, color) == with_char(frame, width, other, y, ch, color),
{
    lemma_painted_off_frame(frame, width, x, y, 5, 7, Glyph { ch, color });
    lemma_painted_off_frame(frame, width, other, y, 5, 7, Glyph { ch, color });
}

/// Draws a line of text that begins at `(x, y)`.
pub fn draw_simple_text(frame: &mut [u8], width: u32, x: i128, y: i128, text: &str, color: Rgba)
    requires
        -0x1_0000_0000_0000_0000_0000_0000_0000_00 <= x <= 0x1_0000_0000_0000_0000_0000_0000_0000_00,
        -0x1_0000_0000_0000_0000_0000_0000_0000_00 <= y <= 0x1_0000_0000_0000_0000_0000_0000_0000_00,
    ensures
        final(frame)@ == with_line(old(frame)@, width as int, x as int, y as int, text@, color),
{
    let mut at: i128 = x;
    for ch in it: text.chars()
        invariant
            it.seq() == text@,
            -0x1_0000_0000_0000_0000_0000_0000_0000_00 <= x <= 0x1_0000_0000_0000_0000_0000_0000_0000_00,
            -0x1_0000_0000_0000_0000_0000_0000_0000_00 <= y <= 0x1_0000_0000_0000_0000_0000_0000_0000_00,
            x <= at <= 0x1_0000_0000_0000_0000_0000_0000_0000_00,
            at == x + 6 * it.index() || (at >= 0x1_0000_0000 && x + 6 * it.index() >= at),
            frame@ == with_text(
                old(frame)@,
                width as int,
                x as int,
                y as int,
                text@,
                color,
                it.index() as int,
            ),
    {
        proof {
            if at != x + 6 * it.index() {
                lemma_char_off_frame(
                    frame@,
                    width as int,
                    at as int,
                    x + 6 * it.index(),
                    y as int,
                    ch,
                    color,
                );
            }
        }
        draw_char(frame, width, at, y, ch, color);
        if at < 0x1_0000_0000 {
            at = at + 6;
        }
    }
}

/// Draws a line of characters that begins at `(x, y)`.
pub fn draw_chars(frame: &mut [u8], width: u32, x: i128, y: i128, text: &[char], color: Rgba)
    requires
        -0x1_0000_0000_0000_0000_0000_0000_0000_00 <= x <= 0x1_0000_0000_0000_0000_0000_0000_0000_00,
        -0x1_0000_0000_0000_0000_0000_0000_0000_00 <= y <= 0x1_0000_0000_0000_0000_0000_0000_0000_00,
    ensures
        final(frame)@ == with_line(old(frame)@, width as int, x as int, y as int, text@, color),
{
    let mut at: i128 = x;
    let mut i: usize = 0;
    while i < text.len()
        invariant
            i <= text@.len(),
            -0x1_0000_0000_0000_0000_0000_0000_0000_00 <= x <= 0x1_0000_0000_0000_0000_0000_0000_0000_00,
            -0x1_0000_0000_0000_0000_0000_0000_0000_00 <= y <= 0x1_0000_0000_0000_0000_0000_0000_0000_00,
            x <= at <= 0x1_0000_0000_0000_0000_0000_0000_0000_00,
            at == x + 6 * i || (at >= 0x1_0000_0000 && x + 6 * i >= at),
            frame@ == with_text(old(frame)@, width as int, x as int, y as int, text@, color, i as int),
        decreases text@.len() - i,
    {
        proof {
            if at != x + 6 * i {
                lemma_char_off_frame(
                    frame@,
                    width as int,
                    at as int,
                    x + 6 * i,
                    y as int,
                    text@[i as int],
                    color,
                );
            }
        }
        draw_char(frame, width, at, y, text[i], color);
        if at < 0x1_0000_0000 {
            at = at + 6;
        }
        i = i + 1;
    }
}

} // verus!
