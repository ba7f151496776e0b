//! Colors, and the conversion from premultiplied to straight alpha.

use vstd::prelude::*;

verus! {

/// An RGBA color of four 8-bit channels. Whether the color channels are
/// premultiplied by alpha depends on where the value stands: vertices and
/// texels arrive premultiplied, vertex buffers leave straight.
#[derive(Clone, Copy, Debug, PartialEq, Eq, Structural)]
pub struct Color {
    pub r: u8,
    pub g: u8,
    pub b: u8,
    pub a: u8,
}

/// One premultiplied channel `c` under alpha `a`, as a straight channel:
/// `c / a` on the scale 0 to 255, rounded down and capped at 255.
///
/// Under alpha zero nothing can be divided; the channel is then 0, so that
/// a fully transparent color comes out as transparent black.
pub open spec fn straight_channel(c: u8, a: u8) -> u8 {
    if a == 0 {
        0u8
    } else if c >= a {
        255u8
    } else {
        ((c as int * 255) / (a as int)) as u8
    }
}

/// A premultiplied color as a straight-alpha color: alpha kept, each color
/// channel divided by alpha.
pub open spec fn straight(c: Color) -> Color {
    Color {
        r: straight_channel(c.r, c.a),
        g: straight_channel(c.g, c.a),
        b: straight_channel(c.b, c.a),
        a: c.a,
    }
}

pub fn unpremultiply_channel(c: u8, a: u8) -> (s: u8)
    ensures
        s == straight_channel(c, a),
{
    if a == 0 {
        0
    } else if c >= a {
        255
    } else {
        let scaled: u32 = c as u32 * 255;
        let q: u32 = scaled / (a as u32);
        assert(q < 255) by (nonlinear_arith)
            requires
                q == (c as int * 255) / (a as int),
                0 <= c < a,
        ;
        q as u8
    }
}

impl Color {
    pub fn new(r: u8, g: u8, b: u8, a: u8) -> (c: Color)
        ensures
            c == (Color { r, g, b, a }),
    {
        Color { r, g, b, a }
    }

    /// The four channels in the order red, green, blue, alpha.
    pub fn to_array(&self) -> (bytes: [u8; 4])
        ensures
            bytes@ == seq![self.r, self.g, self.b, self.a],
    {
        let bytes: [u8; 4] = [self.r, self.g, self.b, self.a];
        assert(bytes@ =~= seq![self.r, self.g, self.b, self.a]);
        bytes
    }

    /// Converts a premultiplied color to straight alpha.
    pub fn unpremultiply(&self) -> (s: Color)
        ensures
            s == straight(*self),
    {
        Color {
            r: unpremultiply_channel(self.r, self.a),
            g: unpremultiply_channel(self.g, self.a),
            b: unpremultiply_channel(self.b, self.a),
            a: self.a,
        }
    }
}

/// An opaque color is its own straight form: with alpha 255 every channel
/// is divided by one.
pub proof fn lemma_opaque_unchanged(c: Color)
    requires
        c.a == 255,
    ensures
        straight(c) == c,
{
}

} // verus!
