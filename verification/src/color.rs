//! Colours and the two board modes.

use vstd::prelude::*;

verus! {

/// One pixel: red, green, blue and alpha, one byte each.
#[derive(Clone, Copy, Debug, PartialEq, Eq, Structural)]
pub struct Rgba {
    pub r: u8,
    pub g: u8,
    pub b: u8,
    pub a: u8,
}

impl Rgba {
    pub open spec fn rgb(r: u8, g: u8, b: u8) -> Rgba {
        Rgba { r, g, b, a: 255 }
    }

    pub open spec fn spec_black() -> Rgba {
        Rgba { r: 0, g: 0, b: 0, a: 255 }
    }

    pub open spec fn spec_white() -> Rgba {
        Rgba { r: 255, g: 255, b: 255, a: 255 }
    }

    pub open spec fn spec_dark_grey() -> Rgba {
        Rgba { r: 15, g: 15, b: 15, a: 255 }
    }

    pub open spec fn spec_transparent() -> Rgba {
        Rgba { r: 0, g: 0, b: 0, a: 0 }
    }

    /// Byte `i` of the pixel as it lies in a buffer: red, green, blue, alpha.
    pub open spec fn channel(self, i: int) -> u8 {
        if i == 0 {
            self.r
        } else if i == 1 {
            self.g
        } else if i == 2 {
            self.b
        } else {
            self.a
        }
    }

    /// Whether the colour channels equal those of `other`; alpha is not compared.
    pub open spec fn same_rgb(self, other: Rgba) -> bool {
        self.r == other.r && self.g == other.g && self.b == other.b
    }

    pub fn new(r: u8, g: u8, b: u8, a: u8) -> (c: Rgba)
        ensures
            c == (Rgba { r, g, b, a }),
    {
        Rgba { r, g, b, a }
    }

    /// Opaque black: ink, and the colour shown outside the board's rows.
    #[verifier::when_used_as_spec(spec_black)]
    pub fn black() -> (c: Rgba)
        ensures
            c == Rgba::spec_black(),
    {
        Rgba { r: 0, g: 0, b: 0, a: 255 }
    }

    /// Opaque white.
    #[verifier::when_used_as_spec(spec_white)]
    pub fn white() -> (c: Rgba)
        ensures
            c == Rgba::spec_white(),
    {
        Rgba { r: 255, g: 255, b: 255, a: 255 }
    }

    /// The dark grey of a blackboard.
    #[verifier::when_used_as_spec(spec_dark_grey)]
    pub fn dark_grey() -> (c: Rgba)
        ensures
            c == Rgba::spec_dark_grey(),
    {
        Rgba { r: 15, g: 15, b: 15, a: 255 }
    }

    /// A pixel that shows nothing.
    #[verifier::when_used_as_spec(spec_transparent)]
    pub fn transparent() -> (c: Rgba)
        ensures
            c == Rgba::spec_transparent(),
    {
        Rgba { r: 0, g: 0, b: 0, a: 0 }
    }
}

/// Blackboard (dark) or whiteboard (light).
#[derive(Clone, Copy, Debug, PartialEq, Eq, Structural)]
pub enum BoardMode {
    Blackboard,
    Whiteboard,
}

impl BoardMode {
    pub open spec fn background(self) -> Rgba {
        match self {
            BoardMode::Blackboard => Rgba::spec_dark_grey(),
            BoardMode::Whiteboard => Rgba::spec_white(),
        }
    }

    pub open spec fn default_pen(self) -> Rgba {
        match self {
            BoardMode::Blackboard => Rgba::spec_white(),
            BoardMode::Whiteboard => Rgba::spec_black(),
        }
    }

    pub open spec fn flipped(self) -> BoardMode {
        match self {
            BoardMode::Blackboard => BoardMode::Whiteboard,
            BoardMode::Whiteboard => BoardMode::Blackboard,
        }
    }

    /// The byte that stands for the mode in a board file.
    pub open spec fn tag(self) -> u8 {
        match self {
            BoardMode::Blackboard => 0,
            BoardMode::Whiteboard => 1,
        }
    }

    /// The mode that a file's first byte stands for; any byte but 0 and 1
    /// leaves the choice to `fallback`.
    pub open spec fn of_tag(tag: u8, fallback: BoardMode) -> BoardMode {
        if tag == 0 {
            BoardMode::Blackboard
        } else if tag == 1 {
            BoardMode::Whiteboard
        } else {
            fallback
        }
    }

    pub fn background_color(&self) -> (c: Rgba)
        ensures
            c == self.background(),
    {
        match self {
            BoardMode::Blackboard => Rgba::dark_grey(),
            BoardMode::Whiteboard => Rgba::white(),
        }
    }

    pub fn default_pen_color(&self) -> (c: Rgba)
        ensures
            c == self.default_pen(),
    {
        match self {
            BoardMode::Blackboard => Rgba::white(),
            BoardMode::Whiteboard => Rgba::black(),
        }
    }

    pub fn toggled(&self) -> (m: BoardMode)
        ensures
            m == self.flipped(),
    {
        match self {
            BoardMode::Blackboard => BoardMode::Whiteboard,
            BoardMode::Whiteboard => BoardMode::Blackboard,
        }
    }

    pub fn to_tag(&self) -> (t: u8)
        ensures
            t == self.tag(),
    {
        match self {
            BoardMode::Blackboard => 0,
            BoardMode::Whiteboard => 1,
        }
    }

    #[verifier::when_used_as_spec(of_tag)]
    pub fn from_tag(tag: u8, fallback: BoardMode) -> (m: BoardMode)
        ensures
            m == BoardMode::of_tag(tag, fallback),
    {
        if tag == 0 {
            BoardMode::Blackboard
        } else if tag == 1 {
            BoardMode::Whiteboard
        } else {
            fallback
        }
    }
}

/// The colour that a pixel takes when the board changes from mode `from` to
/// the other mode: the old background becomes the new background, pure black
/// and pure white ink change places, and every other colour stays. Alpha is
/// kept in every case.
pub open spec fn remapped(c: Rgba, from: BoardMode) -> Rgba {
    let old_bg = from.background();
    let new_bg = from.flipped().background();
    if c.same_rgb(old_bg) {
        Rgba { r: new_bg.r, g: new_bg.g, b: new_bg.b, a: c.a }
    } else if c.same_rgb(Rgba::spec_black()) {
        Rgba { r: 255, g: 255, b: 255, a: c.a }
    } else if c.same_rgb(Rgba::spec_white()) {
        Rgba { r: 0, g: 0, b: 0, a: c.a }
    } else {
        c
    }
}

/// The colours that two changes of mode in a row do not give back: on a
/// blackboard pure black, which turns white and then counts as background; on
/// a whiteboard the blackboard's grey, which the way back takes for background.
pub open spec fn lost_by_round_trip(c: Rgba, from: BoardMode) -> bool {
    match from {
        BoardMode::Blackboard => c.same_rgb(Rgba::spec_black()),
        BoardMode::Whiteboard => c.same_rgb(Rgba::spec_dark_grey()),
    }
}

/// `remapped`, computed.
pub fn remap(c: Rgba, from: BoardMode) -> (out: Rgba)
    ensures
        out == remapped(c, from),
{
    let old_bg = from.background_color();
    let new_bg = from.toggled().background_color();
    if c.r == old_bg.r && c.g == old_bg.g && c.b == old_bg.b {
        Rgba { r: new_bg.r, g: new_bg.g, b: new_bg.b, a: c.a }
    } else if c.r == 0 && c.g == 0 && c.b == 0 {
        Rgba { r: 255, g: 255, b: 255, a: c.a }
    } else if c.r == 255 && c.g == 255 && c.b == 255 {
        Rgba { r: 0, g: 0, b: 0, a: c.a }
    } else {
        c
    }
}

/// Changing the mode twice gives a pixel back exactly when its colour is not
/// one of those that the round trip loses.
pub proof fn lemma_remap_round_trip(c: Rgba, from: BoardMode)
    ensures
        remapped(remapped(c, from), from.flipped()) == c <==> !lost_by_round_trip(c, from),
{
}

/// Source over destination for one channel, in integers:
/// `(src * alpha + dst * (255 - alpha)) / 255`, rounded down.
pub open spec fn blended(src: u8, dst: u8, alpha: u8) -> u8 {
    ((src as int * alpha as int + dst as int * (255 - alpha as int)) / 255) as u8
}

/// `blended`, computed.
pub fn blend(src: u8, dst: u8, alpha: u8) -> (out: u8)
    ensures
        out == blended(src, dst, alpha),
{
    let inv_alpha: u16 = 255 - alpha as u16;
    assert(src as int * alpha as int + dst as int * (255 - alpha as int) <= 255 * 255) by (nonlinear_arith)
        requires
            0 <= src <= 255,
            0 <= dst <= 255,
            0 <= alpha <= 255,
    ;
    assert(src as int * alpha as int >= 0 && src as int * alpha as int <= 255 * 255) by (nonlinear_arith)
        requires
            0 <= src <= 255,
            0 <= alpha <= 255,
    ;
    assert(dst as int * (255 - alpha as int) >= 0) by (nonlinear_arith)
        requires
            0 <= dst <= 255,
            0 <= alpha <= 255,
    ;
    let sum: u16 = src as u16 * alpha as u16 + dst as u16 * inv_alpha;
    (sum / 255) as u8
}

/// What a destination pixel becomes when a source pixel is laid over it. A
/// fully transparent source changes nothing. A fully opaque source replaces
/// the colour channels. Any other source is blended in, channel by channel.
/// The destination's alpha is set to 255 where `force_opaque` holds and is
/// kept otherwise.
pub open spec fn laid_over(src: Rgba, dst: Rgba, force_opaque: bool) -> Rgba {
    let alpha = if force_opaque { 255u8 } else { dst.a };
    if src.a == 0 {
        dst
    } else if src.a == 255 {
        Rgba { r: src.r, g: src.g, b: src.b, a: alpha }
    } else {
        Rgba {
            r: blended(src.r, dst.r, src.a),
            g: blended(src.g, dst.g, src.a),
            b: blended(src.b, dst.b, src.a),
            a: alpha,
        }
    }
}

/// `laid_over`, computed.
pub fn lay_over(src: Rgba, dst: Rgba, force_opaque: bool) -> (out: Rgba)
    ensures
        out == laid_over(src, dst, force_opaque),
{
    let alpha: u8 = if force_opaque { 255 } else { dst.a };
    if src.a == 0 {
        dst
    } else if src.a == 255 {
        Rgba { r: src.r, g: src.g, b: src.b, a: alpha }
    } else {
        Rgba {
            r: blend(src.r, dst.r, src.a),
            g: blend(src.g, dst.g, src.a),
            b: blend(src.b, dst.b, src.a),
            a: alpha,
        }
    }
}

} // verus!
