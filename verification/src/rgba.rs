use vstd::prelude::*;

verus! {

/// One pixel in RGBA channel order, each channel in `0..=255`.
#[derive(Clone, Copy, PartialEq, Eq, Structural, Debug)]
pub struct Rgba {
    pub red: u8,
    pub green: u8,
    pub blue: u8,
    pub alpha: u8,
}

/// A colour channel premultiplied by the pixel's alpha and scaled back
/// into `0..=255`.
pub open spec fn premultiplied(channel: u8, alpha: u8) -> int {
    (channel * alpha) / 255
}

/// The packed presentation format: a fully transparent pixel packs to 0;
/// otherwise the premultiplied red channel sits in bits 16..24, the
/// premultiplied blue channel in bits 8..16 and the premultiplied green
/// channel in bits 0..8.
pub open spec fn softbuf_u32_of(p: Rgba) -> int {
    if p.alpha == 0 {
        0
    } else {
        premultiplied(p.red, p.alpha) * 0x10000 + premultiplied(p.blue, p.alpha) * 0x100
            + premultiplied(p.green, p.alpha)
    }
}

proof fn lemma_channel_product_bound(channel: u8, alpha: u8)
    ensures
        channel * alpha <= 65025,
{
    assert(channel * alpha <= 65025) by (nonlinear_arith)
        requires
            channel <= 255 && alpha <= 255,
    ;
}

impl Rgba {
    pub fn new(red: u8, green: u8, blue: u8, alpha: u8) -> (r: Self)
        ensures
            r == (Rgba { red, green, blue, alpha }),
    {
        Self { red, green, blue, alpha }
    }

    pub fn from_tuple(tuple: (u8, u8, u8, u8)) -> (r: Self)
        ensures
            r == (Rgba { red: tuple.0, green: tuple.1, blue: tuple.2, alpha: tuple.3 }),
    {
        Self { red: tuple.0, green: tuple.1, blue: tuple.2, alpha: tuple.3 }
    }

    /// --------
    ///
    /// Pixel format (`u32`):
    ///
    /// 00000000RRRRRRRRBBBBBBBBGGGGGGGG
    ///
    /// 0: Bit is 0
    /// R: Red channel, premultiplied by alpha
    /// B: Blue channel, premultiplied by alpha
    /// G: Green channel, premultiplied by alpha
    pub fn to_softbuf_u32(self) -> (r: u32)
        ensures
            r == softbuf_u32_of(self),
    {
        if self.alpha == 0 {
            return 0;
        }
        let alpha = self.alpha as u32;
        proof {
            lemma_channel_product_bound(self.red, self.alpha);
            lemma_channel_product_bound(self.blue, self.alpha);
            lemma_channel_product_bound(self.green, self.alpha);
        }
        let red = (self.red as u32 * alpha) / 255;
        let blue = (self.blue as u32 * alpha) / 255;
        let green = (self.green as u32 * alpha) / 255;
        assert(red < 256 && blue < 256 && green < 256);
        let ret = (red << 16u32) | (blue << 8u32) | green;
        assert(ret == red * 0x10000 + blue * 0x100 + green) by (bit_vector)
            requires
                red < 256 && blue < 256 && green < 256 && ret == (red << 16u32) | (blue << 8u32)
                    | green,
        ;
        ret
    }
}

} // verus!
