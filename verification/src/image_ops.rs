//! Pixel transforms of a pin.

use crate::pixels;
use crate::pixels::{Picture, RgbaImage};
use vstd::prelude::*;

verus! {

/// `p` turned a quarter clockwise: its left column becomes the top row.
pub open spec fn turned_right(p: Picture) -> Picture {
    Picture::of(p.height, p.width, |x: int, y: int, c: int| p.channel(y, p.height - 1 - x, c))
}

/// `p` turned a quarter counter-clockwise: its right column becomes the top
/// row.
pub open spec fn turned_left(p: Picture) -> Picture {
    Picture::of(p.height, p.width, |x: int, y: int, c: int| p.channel(p.width - 1 - y, x, c))
}

/// `p` mirrored left to right.
pub open spec fn mirrored(p: Picture) -> Picture {
    Picture::of(p.width, p.height, |x: int, y: int, c: int| p.channel(p.width - 1 - x, y, c))
}

/// `p` mirrored top to bottom.
pub open spec fn upended(p: Picture) -> Picture {
    Picture::of(p.width, p.height, |x: int, y: int, c: int| p.channel(x, p.height - 1 - y, c))
}

/// `image::imageops::rotate90` puts the pixel at `(x, y)` to
/// `(height - 1 - y, x)` of an image with the dimensions exchanged.
#[verifier::external_body]
fn rotate90(src: &RgbaImage) -> (r: RgbaImage)
    ensures
        r@ == turned_right(src@),
{
    let buffer = image::RgbaImage::from_raw(src.width(), src.height(), src.as_raw().clone()).unwrap();
    let turned = image::imageops::rotate90(&buffer);
    RgbaImage::from_raw(turned.width(), turned.height(), turned.into_raw()).unwrap()
}

/// `image::imageops::rotate270` puts the pixel at `(x, y)` to
/// `(y, width - 1 - x)` of an image with the dimensions exchanged.
#[verifier::external_body]
fn rotate270(src: &RgbaImage) -> (r: RgbaImage)
    ensures
        r@ == turned_left(src@),
{
    let buffer = image::RgbaImage::from_raw(src.width(), src.height(), src.as_raw().clone()).unwrap();
    let turned = image::imageops::rotate270(&buffer);
    RgbaImage::from_raw(turned.width(), turned.height(), turned.into_raw()).unwrap()
}

/// `image::imageops::flip_horizontal` puts the pixel at `(x, y)` to
/// `(width - 1 - x, y)`.
#[verifier::external_body]
fn flip_columns(src: &RgbaImage) -> (r: RgbaImage)
    ensures
        r@ == mirrored(src@),
{
    let buffer = image::RgbaImage::from_raw(src.width(), src.height(), src.as_raw().clone()).unwrap();
    let flipped = image::imageops::flip_horizontal(&buffer);
    RgbaImage::from_raw(flipped.width(), flipped.height(), flipped.into_raw()).unwrap()
}

/// `image::imageops::flip_vertical` puts the pixel at `(x, y)` to
/// `(x, height - 1 - y)`.
#[verifier::external_body]
fn flip_rows(src: &RgbaImage) -> (r: RgbaImage)
    ensures
        r@ == upended(src@),
{
    let buffer = image::RgbaImage::from_raw(src.width(), src.height(), src.as_raw().clone()).unwrap();
    let flipped = image::imageops::flip_vertical(&buffer);
    RgbaImage::from_raw(flipped.width(), flipped.height(), flipped.into_raw()).unwrap()
}

/// Rotates a quarter turn clockwise.
#[must_use]
pub fn rotate_right(src: &RgbaImage) -> (r: RgbaImage)
    ensures
        r@ == turned_right(src@),
{
    rotate90(src)
}

/// Rotates a quarter turn counter-clockwise.
#[must_use]
pub fn rotate_left(src: &RgbaImage) -> (r: RgbaImage)
    ensures
        r@ == turned_left(src@),
{
    rotate270(src)
}

/// Mirrors left to right.
#[must_use]
pub fn flip_horizontal(src: &RgbaImage) -> (r: RgbaImage)
    ensures
        r@ == mirrored(src@),
{
    flip_columns(src)
}

/// Mirrors top to bottom.
#[must_use]
pub fn flip_vertical(src: &RgbaImage) -> (r: RgbaImage)
    ensures
        r@ == upended(src@),
{
    flip_rows(src)
}

/// A transform keeps a picture well-formed; turning exchanges the dimensions
/// and mirroring keeps them.
pub proof fn transforms_keep_pictures_well_formed(p: Picture)
    ensures
        turned_right(p).wf(),
        turned_right(p).width == p.height && turned_right(p).height == p.width,
        turned_left(p).wf(),
        turned_left(p).width == p.height && turned_left(p).height == p.width,
        mirrored(p).wf(),
        mirrored(p).width == p.width && mirrored(p).height == p.height,
        upended(p).wf(),
        upended(p).width == p.width && upended(p).height == p.height,
{
}

/// Where each pixel goes: `(x, y)` is at `(height - 1 - y, x)` after a turn to
/// the right, at `(y, width - 1 - x)` after one to the left, and at
/// `(width - 1 - x, y)` or `(x, height - 1 - y)` after a mirroring.
pub proof fn transforms_move_pixels(p: Picture, x: int, y: int, c: int)
    requires
        0 <= x < p.width,
        0 <= y < p.height,
        0 <= c < 4,
    ensures
        turned_right(p).channel(p.height - 1 - y, x, c) == p.channel(x, y, c),
        turned_left(p).channel(y, p.width - 1 - x, c) == p.channel(x, y, c),
        mirrored(p).channel(p.width - 1 - x, y, c) == p.channel(x, y, c),
        upended(p).channel(x, p.height - 1 - y, c) == p.channel(x, y, c),
{
    pixels::picture_of_channel(
        p.height,
        p.width,
        |x: int, y: int, c: int| p.channel(y, p.height - 1 - x, c),
        p.height - 1 - y,
        x,
        c,
    );
    pixels::picture_of_channel(
        p.height,
        p.width,
        |x: int, y: int, c: int| p.channel(p.width - 1 - y, x, c),
        y,
        p.width - 1 - x,
        c,
    );
    pixels::picture_of_channel(
        p.width,
        p.height,
        |x: int, y: int, c: int| p.channel(p.width - 1 - x, y, c),
        p.width - 1 - x,
        y,
        c,
    );
    pixels::picture_of_channel(
        p.width,
        p.height,
        |x: int, y: int, c: int| p.channel(x, p.height - 1 - y, c),
        x,
        p.height - 1 - y,
        c,
    );
}

/// Turning left undoes turning right, and the other way round.
pub proof fn turns_undo_each_other(p: Picture)
    requires
        p.wf(),
    ensures
        turned_left(turned_right(p)) == p,
        turned_right(turned_left(p)) == p,
{
    let right = turned_right(p);
    let left = turned_left(p);
    assert forall|x: int, y: int, c: int|
        0 <= x < p.width && 0 <= y < p.height && 0 <= c < 4 implies #[trigger] turned_left(
        right,
    ).channel(x, y, c) == p.channel(x, y, c) by {
        transforms_move_pixels(p, x, y, c);
        transforms_move_pixels(right, p.height - 1 - y, x, c);
    }
    pixels::same_channels_same_picture(turned_left(right), p);
    assert forall|x: int, y: int, c: int|
        0 <= x < p.width && 0 <= y < p.height && 0 <= c < 4 implies #[trigger] turned_right(
        left,
    ).channel(x, y, c) == p.channel(x, y, c) by {
        transforms_move_pixels(p, x, y, c);
        transforms_move_pixels(left, y, p.width - 1 - x, c);
    }
    pixels::same_channels_same_picture(turned_right(left), p);
}

/// Four turns in the same direction are none.
pub proof fn four_turns_are_identity(p: Picture)
    requires
        p.wf(),
    ensures
        turned_right(turned_right(turned_right(turned_right(p)))) == p,
        turned_left(turned_left(turned_left(turned_left(p)))) == p,
{
    half_turns_agree(p);
    let half = turned_right(turned_right(p));
    half_turns_agree(half);
    turns_undo_each_other(turned_left(p));
    turns_undo_each_other(p);
    assert(turned_right(half) == turned_left(p));
}

/// Two turns to the right are two turns to the left.
pub proof fn half_turns_agree(p: Picture)
    requires
        p.wf(),
    ensures
        turned_right(turned_right(p)) == turned_left(turned_left(p)),
{
    let right = turned_right(p);
    let left = turned_left(p);
    assert forall|x: int, y: int, c: int|
        0 <= x < p.width && 0 <= y < p.height && 0 <= c < 4 implies #[trigger] turned_right(
        right,
    ).channel(x, y, c) == turned_left(left).channel(x, y, c) by {
        let u = p.width - 1 - x;
        let v = p.height - 1 - y;
        transforms_move_pixels(p, u, v, c);
        transforms_move_pixels(right, p.height - 1 - v, u, c);
        transforms_move_pixels(left, v, p.width - 1 - u, c);
    }
    pixels::same_channels_same_picture(turned_right(right), turned_left(left));
}

/// Mirroring both ways, in either order, is a half turn.
pub proof fn mirroring_both_ways_is_a_half_turn(p: Picture)
    requires
        p.wf(),
    ensures
        upended(mirrored(p)) == turned_right(turned_right(p)),
        mirrored(upended(p)) == turned_right(turned_right(p)),
{
    let half = turned_right(turned_right(p));
    assert forall|x: int, y: int, c: int|
        0 <= x < p.width && 0 <= y < p.height && 0 <= c < 4 implies {
        &&& #[trigger] half.channel(x, y, c) == p.channel(p.width - 1 - x, p.height - 1 - y, c)
        &&& upended(mirrored(p)).channel(x, y, c) == half.channel(x, y, c)
        &&& mirrored(upended(p)).channel(x, y, c) == half.channel(x, y, c)
    } by {
        let u = p.width - 1 - x;
        let v = p.height - 1 - y;
        transforms_move_pixels(p, u, v, c);
        transforms_move_pixels(turned_right(p), p.height - 1 - v, u, c);
        transforms_move_pixels(mirrored(p), p.width - 1 - u, v, c);
        transforms_move_pixels(upended(p), u, p.height - 1 - v, c);
    }
    assert forall|x: int, y: int, c: int|
        0 <= x < p.width && 0 <= y < p.height && 0 <= c < 4 implies #[trigger] upended(
        mirrored(p),
    ).channel(x, y, c) == half.channel(x, y, c) by {
        assert(half.channel(x, y, c) == half.channel(x, y, c));
    }
    pixels::same_channels_same_picture(upended(mirrored(p)), half);
    assert forall|x: int, y: int, c: int|
        0 <= x < p.width && 0 <= y < p.height && 0 <= c < 4 implies #[trigger] mirrored(
        upended(p),
    ).channel(x, y, c) == half.channel(x, y, c) by {
        assert(half.channel(x, y, c) == half.channel(x, y, c));
    }
    pixels::same_channels_same_picture(mirrored(upended(p)), half);
}

/// Mirroring twice the same way changes nothing.
pub proof fn mirroring_twice_is_identity(p: Picture)
    requires
        p.wf(),
    ensures
        mirrored(mirrored(p)) == p,
        upended(upended(p)) == p,
{
    assert forall|x: int, y: int, c: int|
        0 <= x < p.width && 0 <= y < p.height && 0 <= c < 4 implies #[trigger] mirrored(
        mirrored(p),
    ).channel(x, y, c) == p.channel(x, y, c) by {
        transforms_move_pixels(p, x, y, c);
        transforms_move_pixels(mirrored(p), p.width - 1 - x, y, c);
    }
    pixels::same_channels_same_picture(mirrored(mirrored(p)), p);
    assert forall|x: int, y: int, c: int|
        0 <= x < p.width && 0 <= y < p.height && 0 <= c < 4 implies #[trigger] upended(
        upended(p),
    ).channel(x, y, c) == p.channel(x, y, c) by {
        transforms_move_pixels(p, x, y, c);
        transforms_move_pixels(upended(p), x, p.height - 1 - y, c);
    }
    pixels::same_channels_same_picture(upended(upended(p)), p);
}

} // verus!
