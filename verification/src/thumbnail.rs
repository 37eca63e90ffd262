//! Cached thumbnails of pins: where they lie and what they show.

use crate::blocks;
use crate::codec;
use crate::paths;
use crate::pin_id::PinId;
use crate::pixels;
use crate::pixels::{Picture, RgbaImage};
use crate::rounding;
use crate::text;
use vstd::arithmetic::power2;
use vstd::prelude::*;
use vstd::string::StringExecFns;
use vstd::utf8;

verus! {

/// Longest edge of a thumbnail, in pixels.
pub const MAX_EDGE: u32 = 256;

/// Name of the thumbnail file of the pin with the given number.
pub open spec fn file_name_of(id: u64) -> Seq<u8> {
    utf8::encode_utf8(text::decimal(id as nat) + ".png"@)
}

/// Name of the file in which a thumbnail is prepared.
pub open spec fn temp_name_of(id: u64) -> Seq<u8> {
    utf8::encode_utf8("."@ + text::decimal(id as nat) + ".png.tmp"@)
}

/// Path of the thumbnail of a pin in `dir`.
pub open spec fn path_of(dir: Seq<u8>, id: u64) -> Seq<u8> {
    paths::joined(dir, file_name_of(id))
}

/// Path in `dir` at which the thumbnail of a pin is prepared.
pub open spec fn temp_path_of(dir: Seq<u8>, id: u64) -> Seq<u8> {
    paths::joined(dir, temp_name_of(id))
}

/// Path that the thumbnail of a pin occupies, whether or not it exists yet.
#[must_use]
pub fn path(dir: &[u8], id: PinId) -> (r: Vec<u8>)
    ensures
        r@ == path_of(dir@, id@),
{
    let name = id.to_decimal().concat(".png");
    paths::join(dir, name.as_str().as_bytes())
}

/// Path at which the thumbnail of a pin is written before it is renamed to
/// [`path`], so that a reader never sees half a file. Both are in the same
/// directory.
#[must_use]
pub fn temp_path(dir: &[u8], id: PinId) -> (r: Vec<u8>)
    ensures
        r@ == temp_path_of(dir@, id@),
{
    let name = ".".to_owned().concat(id.to_decimal().as_str()).concat(".png.tmp");
    paths::join(dir, name.as_str().as_bytes())
}

/// Whether a file name is that of a thumbnail being prepared: UTF-8 that
/// starts with a dot and ends in `.tmp`.
pub open spec fn temp_file(path: Seq<u8>) -> bool {
    match paths::name_of(path) {
        Some(name) => {
            &&& utf8::valid_utf8(name)
            &&& name.len() > 0 && name[0] == paths::DOT
            &&& name.len() >= 4 && name.skip(name.len() - 4) == utf8::encode_utf8(".tmp"@)
        },
        None => false,
    }
}

/// Whether the path is that of a thumbnail being prepared.
pub fn is_temp_file(path: &[u8]) -> (r: bool)
    ensures
        r == temp_file(path@),
{
    proof {
        reveal_strlit(".tmp");
        utf8::is_ascii_chars_encode_utf8(".tmp"@);
    }
    let name = match paths::file_name(path) {
        Some(name) => name,
        None => return false,
    };
    if text::from_utf8(&name).is_err() {
        return false;
    }
    let n: usize = name.len();
    if n < 4 {
        return false;
    }
    let ghost tail = name@.skip(n - 4);
    let ghost tmp = utf8::encode_utf8(".tmp"@);
    let r = name[0] == paths::DOT && name[n - 4] == 0x2e && name[n - 3] == 0x74 && name[n - 2]
        == 0x6d && name[n - 1] == 0x70;
    proof {
        assert(tmp.len() == 4 && tmp[0] == 0x2e && tmp[1] == 0x74 && tmp[2] == 0x6d && tmp[3]
            == 0x70);
        assert(tail[0] == name@[n - 4] && tail[1] == name@[n - 3] && tail[2] == name@[n - 2]
            && tail[3] == name@[n - 1]);
        if r {
            assert(tail =~= tmp);
        }
    }
    r
}

/// Whether the wipe at startup removes the file at this path: a `.png` file or
/// a thumbnail that was being prepared.
pub open spec fn cleared(path: Seq<u8>) -> bool {
    ||| match paths::name_of(path) {
        Some(name) => paths::extension_of(name) == Some(utf8::encode_utf8("png"@)),
        None => false,
    }
    ||| temp_file(path)
}

/// Whether the wipe at startup removes the file at this path.
///
/// Pin numbers restart at 1 with every daemon, so what an earlier one left
/// behind would be served as a thumbnail of this one's pins.
pub fn is_cleared(path: &[u8]) -> (r: bool)
    ensures
        r == cleared(path@),
{
    proof {
        reveal_strlit("png");
        utf8::is_ascii_chars_encode_utf8("png"@);
    }
    let png = match paths::file_name(path) {
        Some(name) => match paths::extension(&name) {
            Some(ext) => {
                let ghost want = utf8::encode_utf8("png"@);
                let same = ext.len() == 3 && ext[0] == 0x70 && ext[1] == 0x6e && ext[2] == 0x67;
                proof {
                    assert(want.len() == 3 && want[0] == 0x70 && want[1] == 0x6e && want[2]
                        == 0x67);
                    if same {
                        assert(ext@ =~= want);
                    }
                }
                same
            },
            None => false,
        },
        None => false,
    };
    png || is_temp_file(path)
}

/// The integer nearest to `edge * MAX_EDGE / longest`, rounded up when it lies
/// in the middle.
pub open spec fn nearest(edge: nat, longest: nat) -> nat {
    (2 * MAX_EDGE as nat * edge + longest) / (2 * longest)
}

/// Whether `edge * MAX_EDGE / longest` lies in the middle of two integers.
pub open spec fn in_the_middle(edge: nat, longest: nat) -> bool {
    (2 * MAX_EDGE as nat * edge + longest) % (2 * longest) == 0
}

/// The 53-bit significand of the double nearest to `1 / t`, which stands for
/// `reciprocal(t) / 2^(53 + rounding::log2(t))`.
pub open spec fn reciprocal(t: nat) -> nat {
    (power2::pow2(54 + rounding::log2(t)) + t) / (2 * t)
}

/// Whether `odd * t` times the double nearest to `1 / t` falls short of `odd`
/// after it is rounded to a double.
///
/// Edges are scaled in double precision, by the double nearest to
/// `MAX_EDGE / longest`. An edge can only lie in the middle when `longest` is
/// `512 * t` and the edge is `odd * t`. The product would then be `odd / 2`
/// exactly, but may come out below it.
pub open spec fn falls_short(odd: nat, t: nat) -> bool {
    odd * (power2::pow2(53 + rounding::log2(t)) - t * reciprocal(t)) > power2::pow2(rounding::log2(odd) + rounding::log2(t))
}

/// The length in a thumbnail of an edge of an image with the given longest
/// edge, which is larger than [`MAX_EDGE`].
pub open spec fn scaled(edge: nat, longest: nat) -> nat {
    let up = nearest(edge, longest);
    let t = longest / 512;
    if in_the_middle(edge, longest) && longest % 512 == 0 && falls_short(edge / t, t) {
        at_least_one((up - 1) as nat)
    } else {
        at_least_one(up)
    }
}

/// The larger of `n` and one.
pub open spec fn at_least_one(n: nat) -> nat {
    if n < 1 {
        1
    } else {
        n
    }
}

/// The larger of two lengths.
pub open spec fn longer(a: u32, b: u32) -> u32 {
    if a >= b {
        a
    } else {
        b
    }
}

/// The size of the thumbnail of an image.
pub open spec fn thumbnail_size(width: u32, height: u32) -> (nat, nat) {
    let longest = longer(width, height);
    if longest <= MAX_EDGE {
        (at_least_one(width as nat), at_least_one(height as nat))
    } else {
        (scaled(width as nat, longest as nat), scaled(height as nat, longest as nat))
    }
}

/// Whether `odd * t` times the double nearest to `1 / t` falls short of `odd`.
fn product_falls_short(odd: u32, t: u32) -> (r: bool)
    requires
        0 < odd < 512,
        0 < t < 0x80_0000,
    ensures
        r == falls_short(odd as nat, t as nat),
{
    let (k, p) = rounding::floor_log2(t as u128);
    let (j, q) = rounding::floor_log2(odd as u128);
    let unit: u128 = 0x20_0000_0000_0000;
    proof {
        power2::lemma2_to64();
        power2::lemma2_to64_rest();
        power2::lemma_pow2_adds(53, k as nat);
        power2::lemma_pow2_adds(54, k as nat);
        power2::lemma_pow2_adds(j as nat, k as nat);
    }
    let whole: u128 = unit * p;
    let significand: u128 = (2 * whole + t as u128) / (2 * t as u128);
    proof {
        assert(2 * unit * p == 2 * (unit * p)) by (nonlinear_arith);
        assert(significand == reciprocal(t as nat));
        assert(significand <= 2 * whole + t) by (nonlinear_arith)
            requires
                significand == (2 * whole + t) / (2 * t),
                t > 0,
                whole >= 0,
        ;
        assert(t * significand <= 0x80_0000 * (2 * 0x20_0000_0000_0000 * 0x80_0000 + 0x80_0000))
            by (nonlinear_arith)
            requires
                0 <= t <= 0x80_0000,
                0 <= significand <= 2 * whole + t,
                whole <= 0x20_0000_0000_0000 * 0x80_0000,
        ;
    }
    let product: u128 = t as u128 * significand;
    if product >= whole {
        proof {
            power2::lemma_pow2_pos((j + k) as nat);
            assert(odd * (whole - product) <= 0) by (nonlinear_arith)
                requires
                    whole - product <= 0,
                    odd > 0,
            ;
        }
        return false;
    }
    proof {
        assert(odd * (whole - product) <= 512 * (0x20_0000_0000_0000 * 0x80_0000)) by (nonlinear_arith)
            requires
                0 < odd < 512,
                0 <= whole - product <= 0x20_0000_0000_0000 * 0x80_0000,
        ;
        assert(q * p <= 512 * 0x80_0000) by (nonlinear_arith)
            requires
                0 <= q <= 512,
                0 <= p <= 0x80_0000,
        ;
    }
    odd as u128 * (whole - product) > q * p
}

/// The length in a thumbnail of an edge.
fn scale_edge(edge: u32, longest: u32) -> (r: u32)
    requires
        edge <= longest,
        longest > MAX_EDGE,
    ensures
        r == scaled(edge as nat, longest as nat),
{
    let twice: u64 = 2 * longest as u64;
    let sum: u64 = 512 * edge as u64 + longest as u64;
    let up: u64 = sum / twice;
    assert(up <= 256) by (nonlinear_arith)
        requires
            up == sum / twice,
            sum <= 513 * longest,
            twice == 2 * longest,
            longest > 0,
    ;
    if sum % twice == 0 && longest % 512 == 0 {
        let t: u32 = longest / 512;
        proof {
            vstd::arithmetic::div_mod::lemma_fundamental_div_mod(sum as int, twice as int);
            assert(edge == (2 * up - 1) * t) by (nonlinear_arith)
                requires
                    512 * edge + longest == (2 * longest) * up,
                    longest == 512 * t,
            ;
            assert(up >= 1) by (nonlinear_arith)
                requires
                    sum == twice * up,
                    sum > 0,
                    up >= 0,
            ;
            vstd::arithmetic::div_mod::lemma_fundamental_div_mod_converse(
                edge as int,
                t as int,
                2 * up - 1,
                0,
            );
        }
        if product_falls_short(edge / t, t) {
            return if up < 2 {
                1
            } else {
                (up - 1) as u32
            };
        }
    }
    if up < 1 {
        1
    } else {
        up as u32
    }
}

/// The size of the thumbnail of an image: the image fitted into a square of
/// [`MAX_EDGE`] pixels with its aspect ratio kept, never enlarged, and never
/// without a pixel.
pub fn scaled_size(width: u32, height: u32) -> (r: (u32, u32))
    ensures
        thumbnail_size(width, height) == (r.0 as nat, r.1 as nat),
{
    let longest: u32 = if width >= height {
        width
    } else {
        height
    };
    if longest <= MAX_EDGE {
        (
            if width < 1 {
                1
            } else {
                width
            },
            if height < 1 {
                1
            } else {
                height
            },
        )
    } else {
        (scale_edge(width, longest), scale_edge(height, longest))
    }
}

/// A thumbnail fits into the box and has at least one pixel.
pub proof fn thumbnails_fit_the_box(width: u32, height: u32)
    ensures
        1 <= thumbnail_size(width, height).0 <= MAX_EDGE,
        1 <= thumbnail_size(width, height).1 <= MAX_EDGE,
{
    let longest = longer(width, height) as nat;
    if longest > MAX_EDGE {
        scaled_is_nearest(width as nat, longest);
        scaled_is_nearest(height as nat, longest);
    }
}

/// An image that fits is not enlarged; one that does not is shrunk until its
/// longest edge is that of the box.
pub proof fn thumbnails_use_the_box(width: u32, height: u32)
    ensures
        longer(width, height) <= MAX_EDGE && width > 0 && height > 0 ==> thumbnail_size(
            width,
            height,
        ) == (width as nat, height as nat),
        longer(width, height) > MAX_EDGE && width >= height ==> thumbnail_size(width, height).0
            == MAX_EDGE,
        longer(width, height) > MAX_EDGE && height >= width ==> thumbnail_size(width, height).1
            == MAX_EDGE,
{
    let longest = longer(width, height) as nat;
    if longest > MAX_EDGE {
        assert((513 * longest) / (2 * longest) == 256 && (513 * longest) % (2 * longest)
            == longest) by {
            vstd::arithmetic::div_mod::lemma_fundamental_div_mod_converse(
                513 * longest as int,
                2 * longest as int,
                256,
                longest as int,
            );
        }
        assert(2 * MAX_EDGE as nat * longest == 512 * longest);
        assert(nearest(longest, longest) == 256 && !in_the_middle(longest, longest));
    }
}

/// A thumbnail keeps the aspect ratio: each edge is within half a pixel of the
/// exact proportion, unless that would leave no pixel at all.
pub proof fn thumbnails_keep_the_aspect_ratio(width: u32, height: u32)
    requires
        longer(width, height) > MAX_EDGE,
    ensures
        ({
            let longest = longer(width, height) as int;
            let size = thumbnail_size(width, height);
            &&& size.0 > 1 ==> -longest <= 2 * size.0 * longest - 2 * MAX_EDGE * width <= longest
            &&& size.1 > 1 ==> -longest <= 2 * size.1 * longest - 2 * MAX_EDGE * height <= longest
        }),
{
    let longest = longer(width, height) as nat;
    scaled_is_nearest(width as nat, longest);
    scaled_is_nearest(height as nat, longest);
}

/// What [`scaled`] is, up to the direction of a tie.
proof fn scaled_is_nearest(edge: nat, longest: nat)
    requires
        edge <= longest,
        longest > MAX_EDGE,
    ensures
        1 <= scaled(edge, longest) <= MAX_EDGE,
        scaled(edge, longest) > 1 ==> -longest <= 2 * scaled(edge, longest) * longest - 2 * MAX_EDGE
            * edge <= longest,
{
    let sum = 512 * edge + longest;
    let twice = 2 * longest;
    let up = sum / twice;
    assert(2 * MAX_EDGE as nat * edge == 512 * edge);
    assert(nearest(edge, longest) == up);
    vstd::arithmetic::div_mod::lemma_fundamental_div_mod(sum as int, twice as int);
    let rest = sum % twice;
    assert(up <= 256) by (nonlinear_arith)
        requires
            up == sum / twice,
            sum <= 513 * longest,
            twice == 2 * longest,
            longest > 0,
    ;
    assert(2 * up * longest == twice * up) by (nonlinear_arith)
        requires
            twice == 2 * longest,
    ;
    assert(2 * (up - 1) * longest == twice * up - twice) by (nonlinear_arith)
        requires
            twice == 2 * longest,
    ;
    assert(0 <= rest < twice);
    if rest == 0 {
        assert(up >= 1) by (nonlinear_arith)
            requires
                sum == twice * up + 0,
                sum > 0,
                up >= 0,
        ;
    }
    let r = scaled(edge, longest);
    if r == up {
        assert(2 * r * longest == twice * up);
    } else if r == up - 1 {
        assert(2 * r * longest == twice * up - twice);
    } else {
        assert(r == 1);
    }
}

/// The RGBA bytes of an image sampled down to a new size.
pub uninterp spec fn sampled_pixels(
    width: u32,
    height: u32,
    pixels: Seq<u8>,
    new_width: u32,
    new_height: u32,
) -> Seq<u8>;

/// `image::imageops::thumbnail` samples an image down to exactly the size asked
/// for. The pixels are a function of the image and of that size: it cuts each edge
/// into the blocks of [`blocks::first`] and [`blocks::past`], and each pixel is the
/// mean of its block, channel by channel. At the size that the image has already,
/// each block is one pixel and stays as it is. It counts and sums the pixels of each
/// block in 32 bits, and overflows outside of [`blocks::sums_fit`]. No block is empty, by
/// [`blocks::every_block_has_a_pixel`]. Of an image without pixels it sums nothing.
#[verifier::external_body]
fn sample(image: &RgbaImage, new_width: u32, new_height: u32) -> (r: RgbaImage)
    requires
        0 < new_width <= blocks::MOST_BLOCKS,
        0 < new_height <= blocks::MOST_BLOCKS,
        image@.width > 0 && image@.height > 0 ==> {
            &&& new_width <= image@.width
            &&& new_height <= image@.height
            &&& blocks::sums_fit(image@, new_width as nat, new_height as nat)
        },
    ensures
        r@ == (Picture {
            width: new_width,
            height: new_height,
            pixels: sampled_pixels(
                image@.width,
                image@.height,
                image@.pixels,
                new_width,
                new_height,
            ),
        }),
        r@.wf(),
        image@.width > 0 && image@.height > 0 ==> forall|x: int, y: int, c: int|
            0 <= x < new_width && 0 <= y < new_height && 0 <= c < 4 ==> #[trigger] r@.channel(
                x,
                y,
                c,
            ) == blocks::mean(
                image@,
                new_width as nat,
                new_height as nat,
                x as nat,
                y as nat,
                c,
            ),
        new_width == image@.width && new_height == image@.height ==> r@ == image@,
{
    let buffer = image::RgbaImage::from_raw(image.width(), image.height(), image.as_raw().clone());
    let small = image::imageops::thumbnail(&buffer.unwrap(), new_width, new_height);
    RgbaImage::from_raw(small.width(), small.height(), small.into_raw()).unwrap()
}

/// Whether a thumbnail can be made of an image: the sums over its blocks fit into
/// 32 bits. An image without pixels has nothing to sum.
pub open spec fn can_shrink(p: Picture) -> bool {
    let size = thumbnail_size(p.width, p.height);
    p.width == 0 || p.height == 0 || blocks::sums_fit(p, size.0, size.1)
}

/// Whether a thumbnail can be made of every image of the given size, whatever its
/// pixels are.
pub open spec fn always_shrinks(width: u32, height: u32) -> bool {
    let size = thumbnail_size(width, height);
    width == 0 || height == 0 || blocks::blocks_are_small(
        width as nat,
        height as nat,
        size.0,
        size.1,
    )
}

/// A thumbnail is never larger than its image.
pub proof fn thumbnails_are_not_enlarged(width: u32, height: u32)
    requires
        width > 0,
        height > 0,
    ensures
        thumbnail_size(width, height).0 <= width,
        thumbnail_size(width, height).1 <= height,
{
    let longest = longer(width, height) as nat;
    if longest > MAX_EDGE {
        nearest_is_not_larger(width as nat, longest);
        nearest_is_not_larger(height as nat, longest);
    }
}

/// An edge that is scaled down does not grow.
proof fn nearest_is_not_larger(edge: nat, longest: nat)
    requires
        edge > 0,
        longest > MAX_EDGE,
    ensures
        scaled(edge, longest) <= edge,
{
    let sum = 512 * edge + longest;
    let twice = 2 * longest;
    assert(2 * MAX_EDGE as nat * edge == 512 * edge);
    vstd::arithmetic::div_mod::lemma_fundamental_div_mod(sum as int, twice as int);
    assert(sum / twice <= edge) by (nonlinear_arith)
        requires
            sum == 512 * edge + longest,
            twice == 2 * longest,
            sum >= twice * (sum / twice),
            edge > 0,
            longest > 256,
    ;
    assert(nearest(edge, longest) == sum / twice);
    if in_the_middle(edge, longest) {
        let up = sum / twice;
        assert(up >= 1) by (nonlinear_arith)
            requires
                sum == twice * up + 0,
                sum > 0,
                up >= 0,
        ;
    }
}

/// Whether a thumbnail can be made of every image of the given size. It can of
/// every image with edges of up to half a million pixels.
pub fn is_shrinkable(width: u32, height: u32) -> (r: bool)
    ensures
        r == always_shrinks(width, height),
{
    let (w, h) = scaled_size(width, height);
    proof {
        thumbnails_fit_the_box(width, height);
    }
    if width == 0 || height == 0 {
        return true;
    }
    blocks::are_blocks_small(width, height, w, h)
}

/// Whether a thumbnail can be made of an image. Only where not every image of its
/// size has one, the pixels are looked at.
fn can_be_shrunk(image: &RgbaImage) -> (r: bool)
    ensures
        r == can_shrink(image@),
{
    proof {
        thumbnails_fit_the_box(image@.width, image@.height);
    }
    if is_shrinkable(image.width(), image.height()) {
        proof {
            some_sizes_always_shrink(image@);
        }
        return true;
    }
    let (w, h) = scaled_size(image.width(), image.height());
    blocks::do_sums_fit(image, w, h)
}

/// Where every image of a size has a thumbnail, this one has.
pub proof fn some_sizes_always_shrink(p: Picture)
    requires
        always_shrinks(p.width, p.height),
    ensures
        can_shrink(p),
{
    if p.width > 0 && p.height > 0 {
        let size = thumbnail_size(p.width, p.height);
        blocks::small_blocks_fit(p, size.0, size.1);
    }
}

/// The picture that the thumbnail of `p` shows.
pub open spec fn thumbnail_of(p: Picture) -> Picture {
    let size = thumbnail_size(p.width, p.height);
    if p.width > 0 && p.height > 0 {
        Picture::of(
            size.0 as u32,
            size.1 as u32,
            |x: int, y: int, c: int| blocks::mean(p, size.0, size.1, x as nat, y as nat, c) as u8,
        )
    } else {
        Picture {
            width: size.0 as u32,
            height: size.1 as u32,
            pixels: sampled_pixels(p.width, p.height, p.pixels, size.0 as u32, size.1 as u32),
        }
    }
}

/// Makes the thumbnail of an image, if it is not too large. An image that fits
/// into the box is its own.
pub fn render(image: &RgbaImage) -> (r: Option<RgbaImage>)
    ensures
        match r {
            Some(small) => can_shrink(image@) && small@ == thumbnail_of(image@),
            None => !can_shrink(image@),
        },
        0 < image@.width <= MAX_EDGE && 0 < image@.height <= MAX_EDGE ==> (r matches Some(small)
            && small@ == image@),
        r matches Some(small) ==> {
            &&& small@.width == thumbnail_size(image@.width, image@.height).0
            &&& small@.height == thumbnail_size(image@.width, image@.height).1
            &&& small@.pixels == sampled_pixels(
                image@.width,
                image@.height,
                image@.pixels,
                small@.width,
                small@.height,
            )
        },
{
    proof {
        thumbnails_fit_the_box(image@.width, image@.height);
        if image@.width > 0 && image@.height > 0 {
            thumbnails_are_not_enlarged(image@.width, image@.height);
        }
        if image@.width <= MAX_EDGE && image@.height <= MAX_EDGE {
            ordinary_images_can_be_shrunk(image@.width, image@.height);
            some_sizes_always_shrink(image@);
        }
    }
    if !can_be_shrunk(image) {
        return None;
    }
    let (w, h) = scaled_size(image.width(), image.height());
    let small = sample(image, w, h);
    proof {
        let p = image@;
        if p.width > 0 && p.height > 0 {
            let shown = thumbnail_of(p);
            assert forall|x: int, y: int, c: int|
                0 <= x < w && 0 <= y < h && 0 <= c < 4 implies #[trigger] small@.channel(x, y, c)
                == shown.channel(x, y, c) by {
                pixels::picture_of_channel(
                    w,
                    h,
                    |x: int, y: int, c: int|
                        blocks::mean(p, w as nat, h as nat, x as nat, y as nat, c) as u8,
                    x,
                    y,
                    c,
                );
            }
            pixels::same_channels_same_picture(small@, shown);
        }
    }
    Some(small)
}

/// A thumbnail that is ready to be written.
#[derive(Debug)]
pub struct ThumbnailFile {
    /// Where to write it first.
    pub temp_path: Vec<u8>,
    /// Where to move it afterwards.
    pub path: Vec<u8>,
    /// The PNG file.
    pub png: Vec<u8>,
}

/// Makes the thumbnail of a pin: what is written, and where to. A reader of the
/// final path sees the previous thumbnail or this one, never half a file. Every
/// thumbnail is a PNG file that can be decoded. There is none of an image that is
/// too large.
pub fn write(dir: &[u8], id: PinId, image: &RgbaImage) -> (r: Result<ThumbnailFile, String>)
    ensures
        match r {
            Ok(file) => {
                &&& can_shrink(image@)
                &&& file.path@ == path_of(dir@, id@)
                &&& file.temp_path@ == temp_path_of(dir@, id@)
                &&& codec::png_of(thumbnail_of(image@)) == Ok::<Seq<u8>, Seq<char>>(file.png@)
                &&& codec::decoded_picture(file.png@) == Ok::<Picture, Seq<char>>(
                    thumbnail_of(image@),
                )
                &&& ({
                    let size = thumbnail_size(image@.width, image@.height);
                    let (w, h) = (size.0 as u32, size.1 as u32);
                    let pixels = sampled_pixels(image@.width, image@.height, image@.pixels, w, h);
                    &&& codec::png_encoding(w, h, pixels) == Ok::<Seq<u8>, Seq<char>>(file.png@)
                    &&& codec::decoded_image(file.png@) == Ok::<
                        (u32, u32, Seq<u8>),
                        Seq<char>,
                    >((w, h, pixels))
                })
            },
            Err(message) => {
                &&& !can_shrink(image@)
                &&& message@ == "image too large for a thumbnail"@
            },
        },
{
    proof {
        thumbnails_fit_the_box(image@.width, image@.height);
        let size = thumbnail_size(image@.width, image@.height);
        assert(size.0 * size.1 * 4 <= 256 * 256 * 4) by (nonlinear_arith)
            requires
                0 <= size.0 <= 256,
                0 <= size.1 <= 256,
        ;
    }
    match render(image) {
        Some(small) => match codec::encode_png(&small) {
            Ok(png) => Ok(
                ThumbnailFile { temp_path: temp_path(dir, id), path: path(dir, id), png },
            ),
            Err(message) => Err(message),
        },
        None => Err("image too large for a thumbnail".to_owned()),
    }
}

/// A thumbnail shows its image: each of its pixels has in each channel a value
/// between the least and the greatest that the image has in the part of it that the
/// pixel stands for. For pixel `(x, y)` of a thumbnail of `w` by `h` pixels, that are
/// the columns from `x / w` to `(x + 1) / w` of the width and the rows from `y / h` to
/// `(y + 1) / h` of the height, give or take a few.
pub proof fn thumbnails_show_the_image(p: Picture, x: int, y: int, c: int, lo: int, hi: int)
    requires
        p.width > 0,
        p.height > 0,
        0 <= x < thumbnail_of(p).width,
        0 <= y < thumbnail_of(p).height,
        0 <= c < 4,
        0 <= lo,
        ({
            let (w, h) = (thumbnail_of(p).width, thumbnail_of(p).height);
            let few = p.width / 0x10_0000 + 3;
            let several = p.height / 0x10_0000 + 3;
            forall|u: int, v: int|
                {
                    &&& 0 <= u < p.width && x * p.width - few * w <= u * w
                    &&& u * w < (x + 1) * p.width + few * w
                    &&& 0 <= v < p.height && y * p.height - several * h <= v * h
                    &&& v * h < (y + 1) * p.height + several * h
                } ==> lo <= #[trigger] p.pixels[(v * p.width + u) * 4 + c] <= hi
        }),
    ensures
        thumbnail_of(p).pixels.len() == thumbnail_of(p).width * thumbnail_of(p).height * 4,
        lo <= thumbnail_of(p).pixels[(y * thumbnail_of(p).width + x) * 4 + c] <= hi,
{
    let size = thumbnail_size(p.width, p.height);
    let (w, h) = (size.0, size.1);
    let few = p.width / 0x10_0000 + 3;
    let several = p.height / 0x10_0000 + 3;
    let (i, j) = (x as nat, y as nat);
    thumbnails_fit_the_box(p.width, p.height);
    thumbnails_are_not_enlarged(p.width, p.height);
    pixels::picture_of_channel(
        w as u32,
        h as u32,
        |x: int, y: int, c: int| blocks::mean(p, w, h, x as nat, y as nat, c) as u8,
        x,
        y,
        c,
    );
    blocks::blocks_lie_in_place(p.width as nat, w, i);
    blocks::blocks_lie_in_place(p.height as nat, h, j);
    let (left, right) = (
        blocks::first(p.width as nat, w, i),
        blocks::past(p.width as nat, w, i),
    );
    let (bottom, top) = (
        blocks::first(p.height as nat, h, j),
        blocks::past(p.height as nat, h, j),
    );
    let best = if hi < 255 {
        hi
    } else {
        255
    };
    assert forall|u: int, v: int| left <= u < right && bottom <= v < top implies lo
        <= #[trigger] p.channel(u, v, c) <= best by {
        place_in_part(p.width as int, w as int, x, left as int, right as int, u, few as int);
        place_in_part(p.height as int, h as int, y, bottom as int, top as int, v, several as int);
        assert(lo <= p.pixels[(v * p.width + u) * 4 + c] <= hi);
    }
    blocks::means_lie_between(p, w, h, i, j, c, lo, best);
}

/// A place between the borders of a block lies in the part that the block stands for.
proof fn place_in_part(edge: int, n: int, i: int, left: int, right: int, at: int, slack: int)
    requires
        n > 0,
        left <= at < right,
        i * edge <= (left + slack) * n,
        right * n <= (i + 1) * edge + slack * n,
    ensures
        i * edge - slack * n <= at * n,
        at * n < (i + 1) * edge + slack * n,
{
    assert(left * n <= at * n && at * n < right * n) by (nonlinear_arith)
        requires
            left <= at < right,
            n > 0,
    ;
    assert((left + slack) * n == left * n + slack * n) by (nonlinear_arith);
}

/// A thumbnail can be made of every image with edges of up to half a million
/// pixels.
pub proof fn ordinary_images_can_be_shrunk(width: u32, height: u32)
    requires
        width <= 0x8_0000,
        height <= 0x8_0000,
    ensures
        always_shrinks(width, height),
{
    let longest = longer(width, height) as nat;
    let (across, down) = thumbnail_size(width, height);
    thumbnails_fit_the_box(width, height);
    block_edge_is_small(width as nat, longest, across);
    block_edge_is_small(height as nat, longest, down);
    if width > 0 && height > 0 {
        assert forall|i: nat, j: nat| i < across && j < down implies #[trigger] blocks::block_pixels(
            width as nat,
            height as nat,
            across,
            down,
            i,
            j,
        ) <= blocks::MOST_PIXELS by {
            blocks::blocks_are_even(width as nat, across, i);
            blocks::blocks_are_even(height as nat, down, j);
            let wide = blocks::extent(width as nat, across, i);
            let tall = blocks::extent(height as nat, down, j);
            assert(wide * tall <= 3076 * 3076) by (nonlinear_arith)
                requires
                    0 <= wide <= 3076,
                    0 <= tall <= 3076,
            ;
        }
    }
}

/// A thumbnail can be made of every long image with few rows or columns: so few that
/// a block over the whole breadth has no more pixels than a block may have.
pub proof fn narrow_images_can_be_shrunk(length: u32, breadth: u32)
    requires
        breadth <= length,
        (length / 256 + length / 0x40_0000 + 4) * breadth <= blocks::MOST_PIXELS,
    ensures
        always_shrinks(length, breadth),
        always_shrinks(breadth, length),
{
    if length <= MAX_EDGE {
        ordinary_images_can_be_shrunk(length, breadth);
        ordinary_images_can_be_shrunk(breadth, length);
    } else if breadth > 0 {
        thumbnails_use_the_box(length, breadth);
        thumbnails_use_the_box(breadth, length);
        narrow_blocks_are_small(length, breadth, thumbnail_size(length, breadth).1);
        narrow_blocks_are_small(length, breadth, thumbnail_size(breadth, length).0);
    }
}

/// The blocks of a long image with few rows are small, and so are those of one with
/// few columns.
proof fn narrow_blocks_are_small(length: u32, breadth: u32, n: nat)
    requires
        0 < breadth <= length,
        (length / 256 + length / 0x40_0000 + 4) * breadth <= blocks::MOST_PIXELS,
    ensures
        blocks::blocks_are_small(length as nat, breadth as nat, 256, n),
        blocks::blocks_are_small(breadth as nat, length as nat, n, 256),
{
    let most = length / 256 + length / 0x40_0000 + 4;
    assert forall|i: nat, j: nat| i < 256 && j < n implies blocks::extent(length as nat, 256, i)
        * blocks::extent(breadth as nat, n, j) <= blocks::MOST_PIXELS by {
        blocks::blocks_are_even(length as nat, 256, i);
        blocks::blocks_lie_on_the_edge(breadth as nat, n, j);
        let wide = blocks::extent(length as nat, 256, i);
        let tall = blocks::extent(breadth as nat, n, j);
        assert(wide * tall <= most * breadth) by (nonlinear_arith)
            requires
                0 <= wide <= most,
                0 <= tall <= breadth,
        ;
    }
    assert forall|i: nat, j: nat| i < n && j < 256 implies #[trigger] blocks::block_pixels(
        breadth as nat,
        length as nat,
        n,
        256,
        i,
        j,
    ) <= blocks::MOST_PIXELS by {
        let wide = blocks::extent(length as nat, 256, j);
        let tall = blocks::extent(breadth as nat, n, i);
        assert(wide * tall == tall * wide) by (nonlinear_arith);
        assert(wide * tall <= blocks::MOST_PIXELS);
    }
}

/// A thumbnail can be made of every image of a single row or column, however long.
pub proof fn lines_can_be_shrunk(length: u32)
    requires
        length > 0,
    ensures
        always_shrinks(length, 1),
        always_shrinks(1, length),
{
    narrow_images_can_be_shrunk(length, 1);
}

/// No output pixel covers more than `3072` pixels of an edge.
proof fn block_edge_is_small(edge: nat, longest: nat, size: nat)
    requires
        edge <= longest <= 0x8_0000,
        longest <= MAX_EDGE ==> size == at_least_one(edge),
        longest > MAX_EDGE ==> size == scaled(edge, longest),
    ensures
        size > 0,
        edge / size <= 3072,
{
    if longest > MAX_EDGE {
        scaled_is_nearest(edge, longest);
        let sum = 512 * edge + longest;
        assert(2 * MAX_EDGE as nat * edge == 512 * edge);
        vstd::arithmetic::div_mod::lemma_fundamental_div_mod(sum as int, 2 * longest as int);
        if size > 1 {
            assert(edge <= 3072 * size) by (nonlinear_arith)
                requires
                    2 * size * longest - 512 * edge >= -longest,
                    longest <= 0x8_0000,
                    size > 1,
            ;
        } else {
            let up = sum / (2 * longest);
            assert(up <= 2);
            assert(sum == 2 * longest * up + sum % (2 * longest));
            if up == 2 {
                assert(in_the_middle(edge, longest));
                assert(sum == 4 * longest) by (nonlinear_arith)
                    requires
                        sum == 2 * longest * up + 0,
                        up == 2,
                ;
            } else {
                assert(sum < 4 * longest) by (nonlinear_arith)
                    requires
                        sum < 2 * longest * up + 2 * longest,
                        up <= 1,
                        longest > 0,
                ;
            }
            assert(512 * edge <= 3 * longest);
        }
        vstd::arithmetic::div_mod::lemma_div_is_ordered(edge as int, 3072 * size as int, size as int);
        vstd::arithmetic::div_mod::lemma_div_by_multiple(3072, size as int);
    } else {
        vstd::arithmetic::div_mod::lemma_div_is_ordered(edge as int, size as int, size as int);
    }
}

/// Thumbnail names are plain names, made of digits and a suffix.
proof fn thumbnail_names_are_plain(id: u64)
    ensures
        paths::plain_name(file_name_of(id)),
        paths::plain_name(temp_name_of(id)),
        paths::extension_of(file_name_of(id)) == Some(utf8::encode_utf8("png"@)),
        temp_name_of(id)[0] == paths::DOT,
        temp_name_of(id).len() >= 4,
        temp_name_of(id).skip(temp_name_of(id).len() - 4) == utf8::encode_utf8(".tmp"@),
        file_name_of(id).len() == text::decimal(id as nat).len() + 4,
        forall|i: int|
            0 <= i < text::decimal(id as nat).len() ==> file_name_of(id)[i] == text::decimal(
                id as nat,
            )[i] as u8,
{
    let digits = text::decimal(id as nat);
    text::decimal_reads_back(id as nat);
    reveal_strlit(".png");
    reveal_strlit("png");
    reveal_strlit(".");
    reveal_strlit(".tmp");
    reveal_strlit(".png.tmp");
    let name = digits + ".png"@;
    let temp = "."@ + digits + ".png.tmp"@;
    utf8::is_ascii_chars_encode_utf8(name);
    utf8::is_ascii_chars_encode_utf8(temp);
    utf8::is_ascii_chars_encode_utf8("png"@);
    utf8::is_ascii_chars_encode_utf8(".tmp"@);
    assert(utf8::is_ascii_chars(name));
    assert(utf8::is_ascii_chars(temp));
    let n = file_name_of(id);
    let t = temp_name_of(id);
    assert(n == Seq::new(name.len(), |i: int| name[i] as u8));
    assert(t == Seq::new(temp.len(), |i: int| temp[i] as u8));
    assert forall|i: int| 0 <= i < n.len() implies n[i] != paths::SLASH by {
        if i < digits.len() {
            assert(name[i] == digits[i]);
        }
    }
    assert forall|i: int| 0 <= i < t.len() implies t[i] != paths::SLASH by {
        if 1 <= i <= digits.len() {
            assert(temp[i] == digits[i - 1]);
        }
    }
    let ext = n.skip(n.len() - 3);
    paths::after_last_is(n, paths::DOT, n.len() - 3);
    assert(ext =~= utf8::encode_utf8("png"@));
    assert(t.skip(t.len() - 4) =~= utf8::encode_utf8(".tmp"@));
}

/// Thumbnails of different pins never share a file.
pub proof fn pins_have_their_own_thumbnails(dir: Seq<u8>, a: u64, b: u64)
    requires
        path_of(dir, a) == path_of(dir, b),
    ensures
        a == b,
{
    thumbnail_names_are_plain(a);
    thumbnail_names_are_plain(b);
    paths::file_in_dir_has_its_name(dir, file_name_of(a));
    paths::file_in_dir_has_its_name(dir, file_name_of(b));
    let x = text::decimal(a as nat);
    let y = text::decimal(b as nat);
    assert(file_name_of(a) == file_name_of(b));
    assert forall|i: int| 0 <= i < x.len() implies x[i] == y[i] by {
        text::decimal_reads_back(a as nat);
        text::decimal_reads_back(b as nat);
        assert(file_name_of(a)[i] == file_name_of(b)[i]);
    }
    assert(x =~= y);
    text::decimal_is_injective(a as nat, b as nat);
}

/// The wipe at startup covers everything that writing thumbnails leaves behind.
pub proof fn startup_wipe_covers_every_thumbnail(dir: Seq<u8>, id: u64)
    ensures
        cleared(path_of(dir, id)),
        cleared(temp_path_of(dir, id)),
{
    thumbnail_names_are_plain(id);
    paths::file_in_dir_has_its_name(dir, file_name_of(id));
    paths::file_in_dir_has_its_name(dir, temp_name_of(id));
    utf8::encode_utf8_valid_utf8("."@ + text::decimal(id as nat) + ".png.tmp"@);
}

/// The thumbnail of a pin is the file with the number of the pin and `.png`, and is
/// prepared in a hidden file with `.tmp` behind that, in the same directory.
pub proof fn thumbnails_are_named_after_their_pins(dir: Seq<u8>, id: u64)
    ensures
        path_of(dir, id) == paths::joined(
            dir,
            utf8::encode_utf8(text::decimal(id as nat) + ".png"@),
        ),
        temp_path_of(dir, id) == paths::joined(
            dir,
            utf8::encode_utf8("."@ + text::decimal(id as nat) + ".png.tmp"@),
        ),
        file_name_of(id) == utf8::encode_utf8(text::decimal(id as nat) + ".png"@),
        temp_name_of(id) == utf8::encode_utf8("."@ + text::decimal(id as nat) + ".png.tmp"@),
{
}

/// Whether a file name ends in four bytes.
pub open spec fn ends_in(name: Seq<u8>, a: u8, b: u8, c: u8, d: u8) -> bool {
    let n = name.len();
    n >= 4 && name[n - 4] == a && name[n - 3] == b && name[n - 2] == c && name[n - 1] == d
}

/// The wipe at startup removes exactly the files whose name ends in `.png`, with
/// something before it, and those whose name is text that starts with a dot and ends in
/// `.tmp`. It spares all others.
pub proof fn the_wipe_spares_other_files(path: Seq<u8>)
    ensures
        cleared(path) <==> (paths::name_of(path) matches Some(name) && (ends_in(
            name,
            0x2e,
            0x70,
            0x6e,
            0x67,
        ) && name.len() > 4 || utf8::valid_utf8(name) && name[0] == 0x2e && ends_in(
            name,
            0x2e,
            0x74,
            0x6d,
            0x70,
        ))),
        temp_file(path) <==> (paths::name_of(path) matches Some(name) && utf8::valid_utf8(name)
            && name[0] == 0x2e && ends_in(name, 0x2e, 0x74, 0x6d, 0x70)),
{
    reveal_strlit("png");
    reveal_strlit(".tmp");
    utf8::is_ascii_chars_encode_utf8("png"@);
    utf8::is_ascii_chars_encode_utf8(".tmp"@);
    let png = utf8::encode_utf8("png"@);
    let tmp = utf8::encode_utf8(".tmp"@);
    assert(png =~= seq![0x70u8, 0x6e, 0x67]);
    assert(tmp =~= seq![0x2eu8, 0x74, 0x6d, 0x70]);
    if let Some(name) = paths::name_of(path) {
        let n = name.len();
        if n >= 4 {
            let tail = name.skip(n - 4);
            assert(tail[0] == name[n - 4] && tail[1] == name[n - 3] && tail[2] == name[n - 2]
                && tail[3] == name[n - 1]);
            if ends_in(name, 0x2e, 0x74, 0x6d, 0x70) {
                assert(tail =~= tmp);
            }
        }
        paths::after_last_is_a_suffix(name, paths::DOT);
        if ends_in(name, 0x2e, 0x70, 0x6e, 0x67) && n > 4 {
            let front = name.take(n - 4);
            paths::names_are_cut_at_their_last_dot(front, png);
            assert(name =~= front.push(0x2e) + png);
        }
        if paths::extension_of(name) == Some(png) {
            let ext = name.skip(n - 3);
            assert(ext == png);
            assert(ext[0] == name[n - 3] && ext[1] == name[n - 2] && ext[2] == name[n - 1]);
        }
    }
}

/// An edge that lies in the middle of two lengths is rounded as the product of double
/// precision comes out. With a longest edge of `512 * t` and an edge of `odd * t`, the
/// edge would be `odd / 2` long. The scale is the double nearest to `1 / (2 * t)`, whose
/// significand is `m`. The product falls short of `odd / 2` when the difference is more
/// than half of the distance of neighbouring doubles, and is rounded down only then.
pub proof fn edges_in_the_middle_are_rounded_as_doubles_are(
    odd: nat,
    t: nat,
    k: nat,
    j: nat,
    m: nat,
)
    requires
        1 < odd < 512,
        odd % 2 == 1,
        0 < t < 0x80_0000,
        power2::pow2(k) <= t < power2::pow2(k + 1),
        power2::pow2(j) <= odd < power2::pow2(j + 1),
        2 * (m * t - power2::pow2(53 + k)) < t,
        2 * (power2::pow2(53 + k) - m * t) < t,
    ensures
        odd * (power2::pow2(53 + k) - m * t) > power2::pow2(j + k) ==> scaled(odd * t, 512 * t) == (
        odd - 1) / 2,
        odd * (power2::pow2(53 + k) - m * t) <= power2::pow2(j + k) ==> scaled(odd * t, 512 * t)
            == (odd + 1) / 2,
{
    let (edge, longest) = (odd * t, 512 * t);
    rounding::log2_is_floor(t);
    rounding::log2_is_floor(odd);
    same_power(t, rounding::log2(t), k);
    same_power(odd, rounding::log2(odd), j);
    let p = power2::pow2(53 + k);
    power2::lemma_pow2_unfold(54 + k);
    assert(power2::pow2(54 + k) == 2 * p);
    assert(reciprocal(t) == m) by {
        let num = (2 * p + t) as int;
        let rest = num - m * (2 * t);
        assert(m * (2 * t) == 2 * (m * t)) by (nonlinear_arith);
        assert(0 <= rest < 2 * t);
        vstd::arithmetic::div_mod::lemma_fundamental_div_mod_converse(num, 2 * t as int, m as int, rest);
    }
    assert(t * m == m * t) by (nonlinear_arith);
    let up = (odd + 1) / 2;
    assert(2 * MAX_EDGE as nat * edge == 512 * (odd * t));
    assert(512 * (odd * t) + 512 * t == up * (2 * (512 * t))) by (nonlinear_arith)
        requires
            odd + 1 == 2 * up,
    ;
    vstd::arithmetic::div_mod::lemma_fundamental_div_mod_converse(
        (512 * edge + longest) as int,
        2 * longest as int,
        up as int,
        0,
    );
    assert(nearest(edge, longest) == up && in_the_middle(edge, longest));
    assert(longest / 512 == t && longest % 512 == 0);
    vstd::arithmetic::div_mod::lemma_fundamental_div_mod_converse(
        edge as int,
        t as int,
        odd as int,
        0,
    );
    assert(edge / t == odd);
}

/// Only one power of two is the largest below a number.
proof fn same_power(n: nat, a: nat, b: nat)
    requires
        power2::pow2(a) <= n < power2::pow2(a + 1),
        power2::pow2(b) <= n < power2::pow2(b + 1),
    ensures
        a == b,
{
    if a < b && a + 1 != b {
        power2::lemma_pow2_strictly_increases(a + 1, b);
    }
    if b < a && b + 1 != a {
        power2::lemma_pow2_strictly_increases(b + 1, a);
    }
}

/// An edge that does not lie in the middle has the nearest length, and at least one
/// pixel.
pub proof fn other_edges_have_the_nearest_length(edge: nat, longest: nat, n: nat)
    requires
        longest > MAX_EDGE,
        edge <= longest,
        2 * n * longest - longest < 512 * edge < 2 * n * longest + longest,
    ensures
        n >= 1 ==> scaled(edge, longest) == n,
        n == 0 ==> scaled(edge, longest) == 1,
{
    let sum = (512 * edge + longest) as int;
    let rest = sum - n * (2 * longest);
    assert(n * (2 * longest) == 2 * n * longest) by (nonlinear_arith);
    assert(0 < rest < 2 * longest);
    vstd::arithmetic::div_mod::lemma_fundamental_div_mod_converse(sum, 2 * longest as int, n as int, rest);
    assert(2 * MAX_EDGE as nat * edge == 512 * edge);
    assert(nearest(edge, longest) == n && !in_the_middle(edge, longest));
}

/// Each edge of a thumbnail is the edge of the image scaled by the longest one, unless
/// the image fits already.
pub proof fn edges_are_scaled_by_the_longest(width: u32, height: u32)
    ensures
        width <= 256 && height <= 256 ==> {
            &&& thumbnail_size(width, height).0 == if width == 0 {
                1
            } else {
                width as nat
            }
            &&& thumbnail_size(width, height).1 == if height == 0 {
                1
            } else {
                height as nat
            }
        },
        width > 256 || height > 256 ==> {
            let longest = if width >= height {
                width as nat
            } else {
                height as nat
            };
            &&& thumbnail_size(width, height).0 == scaled(width as nat, longest)
            &&& thumbnail_size(width, height).1 == scaled(height as nat, longest)
        },
{
}

/// A thumbnail can be made exactly where the sums over the blocks fit. Nothing is summed
/// of an image without pixels.
pub proof fn thumbnails_are_made_where_the_sums_fit(p: Picture)
    ensures
        p.width == 0 || p.height == 0 ==> can_shrink(p),
        p.width > 0 && p.height > 0 ==> (can_shrink(p) <==> blocks::sums_fit(
            p,
            thumbnail_size(p.width, p.height).0,
            thumbnail_size(p.width, p.height).1,
        )),
{
}

} // verus!
