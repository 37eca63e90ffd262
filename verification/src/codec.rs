//! Encoded images.

use crate::pixels::{Picture, RgbaImage};
use vstd::prelude::*;

verus! {

/// The size and the RGBA bytes of the image that `bytes` encode, or the message
/// of the error with which they are refused.
pub uninterp spec fn decoded_image(bytes: Seq<u8>) -> Result<(u32, u32, Seq<u8>), Seq<char>>;

/// `image::load_from_memory` recognises the format by the bytes themselves and
/// decodes them, and `DynamicImage::to_rgba8` converts what came out to four
/// bytes for each pixel. The result is a function of the bytes; which bytes
/// make which image is not stated.
#[verifier::external_body]
fn load_rgba8(bytes: &[u8]) -> (r: Result<RgbaImage, String>)
    ensures
        match r {
            Ok(image) => decoded_image(bytes@) == Ok::<(u32, u32, Seq<u8>), Seq<char>>(
                (image@.width, image@.height, image@.pixels),
            ),
            Err(message) => decoded_image(bytes@) == Err::<(u32, u32, Seq<u8>), Seq<char>>(message@),
        },
{
    match image::load_from_memory(bytes) {
        Ok(decoded) => {
            let rgba = decoded.to_rgba8();
            Ok(RgbaImage::from_raw(rgba.width(), rgba.height(), rgba.into_raw()).unwrap())
        },
        Err(e) => Err(e.to_string()),
    }
}

/// The PNG file for an image of the given size and RGBA bytes, or the message
/// of the error with which it is refused.
pub uninterp spec fn png_encoding(width: u32, height: u32, pixels: Seq<u8>) -> Result<
    Seq<u8>,
    Seq<char>,
>;

/// Whether a picture has any pixels, and no more than 64 MiB of them. A PNG file
/// holds no empty picture, and decoding stops at 512 MiB.
pub open spec fn ordinary(p: Picture) -> bool {
    p.width > 0 && p.height > 0 && p.width * p.height * 4 <= 0x400_0000
}

/// `ImageBuffer::write_to` with `ImageFormat::Png` writes a PNG file. The
/// result is a function of the image; which bytes make up the file is not
/// stated, but for this: PNG is lossless for four channels of eight bits, so that
/// an [`ordinary`] picture is encoded, and `image::load_from_memory` decodes the
/// file to the same pixels.
#[verifier::external_body]
fn write_png(image: &RgbaImage) -> (r: Result<Vec<u8>, String>)
    ensures
        match r {
            Ok(png) => {
                &&& png_encoding(image@.width, image@.height, image@.pixels) == Ok::<
                    Seq<u8>,
                    Seq<char>,
                >(png@)
                &&& ordinary(image@) ==> decoded_image(png@) == Ok::<
                    (u32, u32, Seq<u8>),
                    Seq<char>,
                >((image@.width, image@.height, image@.pixels))
            },
            Err(message) => {
                &&& png_encoding(image@.width, image@.height, image@.pixels) == Err::<
                    Seq<u8>,
                    Seq<char>,
                >(message@)
                &&& !ordinary(image@)
            },
        },
{
    let buffer = image::RgbaImage::from_raw(image.width(), image.height(), image.as_raw().clone());
    let mut png: Vec<u8> = Vec::new();
    match buffer.unwrap().write_to(&mut std::io::Cursor::new(&mut png), image::ImageFormat::Png) {
        Ok(()) => Ok(png),
        Err(e) => Err(e.to_string()),
    }
}

/// The picture that `bytes` encode, or why they encode none.
pub open spec fn decoded_picture(bytes: Seq<u8>) -> Result<Picture, Seq<char>> {
    match decoded_image(bytes) {
        Ok(found) => Ok(Picture { width: found.0, height: found.1, pixels: found.2 }),
        Err(message) => Err(message),
    }
}

/// Decodes an image in whichever format `bytes` turn out to be.
pub fn decode(bytes: &[u8]) -> (r: Result<RgbaImage, String>)
    ensures
        match r {
            Ok(image) => decoded_picture(bytes@) == Ok::<Picture, Seq<char>>(image@),
            Err(message) => decoded_picture(bytes@) == Err::<Picture, Seq<char>>(message@),
        },
        match r {
            Ok(image) => decoded_image(bytes@) == Ok::<(u32, u32, Seq<u8>), Seq<char>>(
                (image@.width, image@.height, image@.pixels),
            ),
            Err(message) => decoded_image(bytes@) == Err::<(u32, u32, Seq<u8>), Seq<char>>(
                message@,
            ),
        },
{
    load_rgba8(bytes)
}

/// The PNG file that holds `p`, or why there is none.
pub open spec fn png_of(p: Picture) -> Result<Seq<u8>, Seq<char>> {
    png_encoding(p.width, p.height, p.pixels)
}

/// Encodes an image as a PNG file. An ordinary one always can be encoded, and
/// decodes to itself.
pub fn encode_png(image: &RgbaImage) -> (r: Result<Vec<u8>, String>)
    ensures
        match r {
            Ok(png) => png_of(image@) == Ok::<Seq<u8>, Seq<char>>(png@),
            Err(message) => png_of(image@) == Err::<Seq<u8>, Seq<char>>(message@),
        },
        match r {
            Ok(png) => png_encoding(image@.width, image@.height, image@.pixels) == Ok::<
                Seq<u8>,
                Seq<char>,
            >(png@),
            Err(message) => png_encoding(image@.width, image@.height, image@.pixels) == Err::<
                Seq<u8>,
                Seq<char>,
            >(message@),
        },
        ordinary(image@) ==> (r matches Ok(png) && decoded_picture(png@) == Ok::<
            Picture,
            Seq<char>,
        >(image@)),
{
    write_png(image)
}

/// A decoded picture is what the decoder gave, and a PNG file is what the encoder gave
/// for the picture.
pub proof fn pictures_are_decoded_as_they_are(bytes: Seq<u8>, p: Picture)
    ensures
        decoded_picture(bytes) is Ok <==> decoded_image(bytes) is Ok,
        decoded_image(bytes) matches Ok(found) ==> decoded_picture(bytes) == Ok::<
            Picture,
            Seq<char>,
        >(Picture { width: found.0, height: found.1, pixels: found.2 }),
        decoded_image(bytes) matches Err(message) ==> decoded_picture(bytes) == Err::<
            Picture,
            Seq<char>,
        >(message),
        png_of(p) == png_encoding(p.width, p.height, p.pixels),
        ordinary(p) <==> p.width > 0 && p.height > 0 && p.width * p.height * 4 <= 0x400_0000,
{
}

} // verus!
