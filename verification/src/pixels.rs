//! Images as rows of RGBA pixels.

use vstd::prelude::*;

verus! {

/// An image of 8-bit RGBA pixels, row by row from the top, each row from the
/// left.
#[derive(Debug)]
pub struct RgbaImage {
    width: u32,
    height: u32,
    pixels: Vec<u8>,
}

/// What an [`RgbaImage`] holds.
#[verifier::ext_equal]
pub struct Picture {
    pub width: u32,
    pub height: u32,
    /// Four bytes for each pixel.
    pub pixels: Seq<u8>,
}

impl Picture {
    /// Whether there are exactly as many bytes as the dimensions ask for.
    pub open spec fn wf(self) -> bool {
        self.pixels.len() == self.width * self.height * 4
    }

    /// Channel `c` of the pixel in column `x` of row `y`.
    pub open spec fn channel(self, x: int, y: int, c: int) -> u8 {
        self.pixels[(y * self.width + x) * 4 + c]
    }

    /// The picture of the given size in which channel `c` of the pixel in
    /// column `x` of row `y` is `f(x, y, c)`.
    pub open spec fn of(width: u32, height: u32, f: spec_fn(int, int, int) -> u8) -> Picture {
        Picture {
            width,
            height,
            pixels: Seq::new(
                (width * height * 4) as nat,
                |i: int| f((i / 4) % (width as int), (i / 4) / (width as int), i % 4),
            ),
        }
    }
}

impl View for RgbaImage {
    type V = Picture;

    closed spec fn view(&self) -> Picture {
        Picture { width: self.width, height: self.height, pixels: self.pixels@ }
    }
}

impl RgbaImage {
    #[verifier::type_invariant]
    pub closed spec fn wf(self) -> bool {
        self.pixels@.len() == self.width * self.height * 4
    }

    /// The image with the given dimensions and bytes, when there are exactly
    /// four bytes for each pixel.
    pub fn from_raw(width: u32, height: u32, pixels: Vec<u8>) -> (r: Option<RgbaImage>)
        ensures
            match r {
                Some(image) => pixels@.len() == width * height * 4 && image@ == (Picture {
                    width,
                    height,
                    pixels: pixels@,
                }),
                None => pixels@.len() != width * height * 4,
            },
    {
        assert(width * height * 4 <= 0xffff_ffff * 0xffff_ffff * 4) by (nonlinear_arith)
            requires
                width <= 0xffff_ffff,
                height <= 0xffff_ffff,
        ;
        assert(width * height <= 0xffff_ffff * 0xffff_ffff) by (nonlinear_arith)
            requires
                width <= 0xffff_ffff,
                height <= 0xffff_ffff,
        ;
        let bytes: u128 = width as u128 * height as u128 * 4;
        if pixels.len() as u128 == bytes {
            Some(RgbaImage { width, height, pixels })
        } else {
            None
        }
    }

    /// Width in pixels.
    pub fn width(&self) -> (r: u32)
        ensures
            r == self@.width,
    {
        self.width
    }

    /// Height in pixels.
    pub fn height(&self) -> (r: u32)
        ensures
            r == self@.height,
    {
        self.height
    }

    /// The bytes of the pixels, four for each.
    pub fn as_raw(&self) -> (r: &Vec<u8>)
        ensures
            r@ == self@.pixels,
            self@.wf(),
    {
        proof {
            use_type_invariant(self);
        }
        &self.pixels
    }
}

/// Rows and columns: the pixels of [`Picture::of`] are those it was made from.
pub proof fn picture_of_channel(
    width: u32,
    height: u32,
    f: spec_fn(int, int, int) -> u8,
    x: int,
    y: int,
    c: int,
)
    requires
        0 <= x < width,
        0 <= y < height,
        0 <= c < 4,
    ensures
        Picture::of(width, height, f).channel(x, y, c) == f(x, y, c),
        Picture::of(width, height, f).wf(),
{
    let w = width as int;
    let p = y * w + x;
    let i = p * 4 + c;
    assert(0 <= p && p < w * height) by (nonlinear_arith)
        requires
            0 <= x < w,
            0 <= y < height,
            p == y * w + x,
    ;
    assert(i / 4 == p && i % 4 == c);
    vstd::arithmetic::div_mod::lemma_fundamental_div_mod_converse(p, w, y, x);
}

/// Two pictures of the same size with the same pixels are the same picture.
pub proof fn same_channels_same_picture(a: Picture, b: Picture)
    requires
        a.wf(),
        b.wf(),
        a.width == b.width,
        a.height == b.height,
        forall|x: int, y: int, c: int|
            0 <= x < a.width && 0 <= y < a.height && 0 <= c < 4 ==> #[trigger] a.channel(x, y, c)
                == b.channel(x, y, c),
    ensures
        a == b,
{
    let w = a.width as int;
    assert forall|i: int| 0 <= i < a.pixels.len() implies a.pixels[i] == b.pixels[i] by {
        let p = i / 4;
        let c = i % 4;
        assert(0 <= p < w * a.height);
        assert(w > 0) by (nonlinear_arith)
            requires
                0 <= p < w * a.height,
                w >= 0,
        ;
        let x = p % w;
        let y = p / w;
        vstd::arithmetic::div_mod::lemma_fundamental_div_mod(p, w);
        vstd::arithmetic::div_mod::lemma_mod_bound(p, w);
        assert(0 <= y && y < a.height) by (nonlinear_arith)
            requires
                p == w * y + x,
                0 <= x < w,
                0 <= p < w * a.height,
        ;
        assert(y * w == w * y) by (nonlinear_arith);
        assert(a.channel(x, y, c) == b.channel(x, y, c));
        assert((y * w + x) * 4 + c == i);
    }
    assert(a.pixels =~= b.pixels);
}

} // verus!
