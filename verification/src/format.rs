//! The board file: a header of nine bytes, then the background's pixels.
//!
//! Byte 0 is the mode (0 for a blackboard, 1 for a whiteboard), bytes 1 to 4
//! the width and bytes 5 to 8 the height, both unsigned, 32 bits, least
//! significant byte first. The RGBA bytes of the background follow, row by
//! row from the top, each row from the left.

use vstd::prelude::*;
use crate::color::BoardMode;
use crate::grid::byte_len;
use crate::grid::valid_dimensions;
use crate::grid::MAX_DIMENSION;

verus! {

/// The length of the header, in bytes.
pub const HEADER_SIZE: usize = 9;

/// What a header says.
#[derive(Clone, Copy, Debug, PartialEq, Eq, Structural)]
pub struct Header {
    pub mode: BoardMode,
    pub width: u32,
    pub height: u32,
}

/// The number whose four bytes, least significant first, are `b0` to `b3`.
pub open spec fn le32(b0: u8, b1: u8, b2: u8, b3: u8) -> int {
    b0 as int + 256 * (b1 as int) + 65536 * (b2 as int) + 16777216 * (b3 as int)
}

/// Byte `i` of `v`, counted from the least significant.
pub open spec fn le_byte(v: u32, i: int) -> u8 {
    if i == 0 {
        (v as int % 256) as u8
    } else if i == 1 {
        (v as int / 256 % 256) as u8
    } else if i == 2 {
        (v as int / 65536 % 256) as u8
    } else {
        (v as int / 16777216 % 256) as u8
    }
}

/// The nine bytes of the header for a board of the given mode and size.
pub open spec fn header_bytes(mode: BoardMode, width: u32, height: u32) -> Seq<u8> {
    Seq::new(
        9,
        |i: int|
            if i == 0 {
                mode.tag()
            } else if i < 5 {
                le_byte(width, i - 1)
            } else {
                le_byte(height, i - 5)
            },
    )
}

/// The width that a file's header declares.
pub open spec fn stored_width(file: Seq<u8>) -> int {
    le32(file[1], file[2], file[3], file[4])
}

/// The height that a file's header declares.
pub open spec fn stored_height(file: Seq<u8>) -> int {
    le32(file[5], file[6], file[7], file[8])
}

/// A file holds a board if it is longer than a header and the header declares
/// a width and a height between 1 and `MAX_DIMENSION`.
pub open spec fn has_valid_header(file: Seq<u8>) -> bool {
    file.len() > HEADER_SIZE && valid_dimensions(stored_width(file), stored_height(file))
}

/// What the header of a file that holds a board says; a mode byte other than
/// 0 and 1 leaves the mode to `fallback`.
pub open spec fn stored_header(file: Seq<u8>, fallback: BoardMode) -> Header {
    Header {
        mode: BoardMode::of_tag(file[0], fallback),
        width: stored_width(file) as u32,
        height: stored_height(file) as u32,
    }
}

/// The background that a file holds for a board of `len` bytes: the bytes
/// that follow the header, cut off after `len`, and zeros for what the file
/// lacks.
pub open spec fn stored_pixels(file: Seq<u8>, len: int) -> Seq<u8> {
    Seq::new(
        len as nat,
        |i: int|
            if HEADER_SIZE + i < file.len() {
                file[HEADER_SIZE + i]
            } else {
                0u8
            },
    )
}

/// The whole file of a board: header, then background.
pub open spec fn file_image(mode: BoardMode, width: u32, height: u32, background: Seq<u8>) -> Seq<
    u8,
> {
    header_bytes(mode, width, height) + background
}

pub proof fn lemma_le32_round_trip(v: u32)
    ensures
        le32(le_byte(v, 0), le_byte(v, 1), le_byte(v, 2), le_byte(v, 3)) == v,
{
}

/// A board's file holds that board: the header is valid and gives back mode,
/// width and height, and the pixels are the background.
pub proof fn lemma_file_image_round_trip(
    mode: BoardMode,
    width: u32,
    height: u32,
    background: Seq<u8>,
    fallback: BoardMode,
)
    requires
        valid_dimensions(width as int, height as int),
        background.len() == byte_len(width as int, height as int),
    ensures
        has_valid_header(file_image(mode, width, height, background)),
        stored_header(file_image(mode, width, height, background), fallback) == (Header {
            mode,
            width,
            height,
        }),
        stored_pixels(file_image(mode, width, height, background), background.len() as int)
            == background,
{
    let file = file_image(mode, width, height, background);
    lemma_le32_round_trip(width);
    lemma_le32_round_trip(height);
    assert(width * height * 4 > 0) by (nonlinear_arith)
        requires
            width > 0,
            height > 0,
    ;
    assert(file.len() == 9 + background.len());
    assert(file[0] == mode.tag());
    assert(file[1] == le_byte(width, 0));
    assert(file[2] == le_byte(width, 1));
    assert(file[3] == le_byte(width, 2));
    assert(file[4] == le_byte(width, 3));
    assert(file[5] == le_byte(height, 0));
    assert(file[6] == le_byte(height, 1));
    assert(file[7] == le_byte(height, 2));
    assert(file[8] == le_byte(height, 3));
    assert(stored_pixels(file, background.len() as int) =~= background);
}

/// Writes the header of a board.
pub fn encode_header(mode: BoardMode, width: u32, height: u32) -> (bytes: [u8; 9])
    ensures
        bytes@ == header_bytes(mode, width, height),
{
    let bytes: [u8; 9] = [
        mode.to_tag(),
        (width % 256) as u8,
        (width / 256 % 256) as u8,
        (width / 65536 % 256) as u8,
        (width / 16777216 % 256) as u8,
        (height % 256) as u8,
        (height / 256 % 256) as u8,
        (height / 65536 % 256) as u8,
        (height / 16777216 % 256) as u8,
    ];
    assert(bytes@ =~= header_bytes(mode, width, height));
    bytes
}

/// Reads the header of a file: `Some` exactly where the file holds a board.
pub fn decode_header(file: &[u8], fallback: BoardMode) -> (header: Option<Header>)
    ensures
        header is Some <==> has_valid_header(file@),
        header is Some ==> header.unwrap() == stored_header(file@, fallback),
{
    if file.len() <= HEADER_SIZE {
        return None;
    }
    let width: u64 = file[1] as u64 + 256 * (file[2] as u64) + 65536 * (file[3] as u64) + 16777216
        * (file[4] as u64);
    let height: u64 = file[5] as u64 + 256 * (file[6] as u64) + 65536 * (file[7] as u64) + 16777216
        * (file[8] as u64);
    if width > 0 && height > 0 && width <= MAX_DIMENSION as u64 && height <= MAX_DIMENSION as u64 {
        Some(Header { mode: BoardMode::from_tag(file[0], fallback), width: width as u32, height: height as u32 })
    } else {
        None
    }
}

} // verus!
