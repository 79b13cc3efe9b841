//! The storage of a pixel buffer: an `image::RgbImage`.
//!
//! Nothing in this file is proved. Verus cannot look into the image, so the
//! file gives names to what an image holds and states what those methods of
//! `image::ImageBuffer` that the crate calls do to it, as their source shows
//! it. The rest of the crate is verified against these statements.

use image::Rgb;
use image::RgbImage;
use vstd::prelude::*;

verus! {

/// The pixel stored as three consecutive bytes at position `i` of `bytes`.
pub open spec fn pixel_in(bytes: Seq<u8>, i: int) -> (u8, u8, u8) {
    (bytes[3 * i], bytes[3 * i + 1], bytes[3 * i + 2])
}

/// `bytes` with the three bytes of position `i` replaced by `rgb`.
pub open spec fn with_pixel(bytes: Seq<u8>, i: int, rgb: (u8, u8, u8)) -> Seq<u8> {
    bytes.update(3 * i, rgb.0).update(3 * i + 1, rgb.1).update(3 * i + 2, rgb.2)
}

/// An `image::RgbImage`, kept out of Verus's sight.
#[verifier::external_body]
pub struct RawImage {
    img: RgbImage,
}

/// Width and height of the stored image.
pub uninterp spec fn raw_dimensions(raw: RawImage) -> (u32, u32);

/// The bytes in the container of the stored image: the channels of its
/// pixels, pixel after pixel in row-major order, three bytes to a pixel. A
/// container may be longer than its image needs.
pub uninterp spec fn raw_bytes(raw: RawImage) -> Seq<u8>;

/// `image::ImageBuffer::from_raw` on an RGB image of bytes. It accepts every
/// container that holds at least three bytes per pixel and keeps the
/// dimensions and the container as given.
#[verifier::external_body]
pub(crate) fn image_from_raw(width: u32, height: u32, data: Vec<u8>) -> (made: Option<RawImage>)
    requires
        width > 0,
        height > 0,
    ensures
        made is Some <==> 3 * (width * height) <= data@.len(),
        made matches Some(raw) ==> raw_dimensions(raw) == (width, height) && raw_bytes(raw)
            == data@,
{
    match RgbImage::from_raw(width, height, data) {
        Some(img) => Some(RawImage { img }),
        None => None,
    }
}

/// `image::ImageBuffer::into_raw`: hands back the container.
#[verifier::external_body]
pub(crate) fn image_into_raw(raw: RawImage) -> (data: Vec<u8>)
    ensures
        data@ == raw_bytes(raw),
{
    raw.img.into_raw()
}

/// `image::ImageBuffer::dimensions`: width, then height.
#[verifier::external_body]
pub(crate) fn image_dimensions(raw: &RawImage) -> (dims: (u32, u32))
    ensures
        dims == raw_dimensions(*raw),
{
    raw.img.dimensions()
}

/// `image::ImageBuffer::get_pixel`, which panics outside the image. Inside,
/// it reads the three bytes at position `y * width + x`.
#[verifier::external_body]
pub(crate) fn image_get_pixel(raw: &RawImage, x: u32, y: u32) -> (rgb: (u8, u8, u8))
    requires
        x < raw_dimensions(*raw).0,
        y < raw_dimensions(*raw).1,
    ensures
        rgb == pixel_in(raw_bytes(*raw), y * raw_dimensions(*raw).0 + x),
{
    let channels = raw.img.get_pixel(x, y).0;
    (channels[0], channels[1], channels[2])
}

/// `image::ImageBuffer::put_pixel`, which panics outside the image. Inside,
/// it overwrites the three bytes at position `y * width + x` and nothing
/// else.
#[verifier::external_body]
pub(crate) fn image_put_pixel(raw: &mut RawImage, x: u32, y: u32, rgb: (u8, u8, u8))
    requires
        x < raw_dimensions(*old(raw)).0,
        y < raw_dimensions(*old(raw)).1,
    ensures
        raw_dimensions(*final(raw)) == raw_dimensions(*old(raw)),
        raw_bytes(*final(raw)) == with_pixel(
            raw_bytes(*old(raw)),
            y * raw_dimensions(*old(raw)).0 + x,
            rgb,
        ),
    no_unwind
{
    raw.img.put_pixel(x, y, Rgb([rgb.0, rgb.1, rgb.2]))
}

} // verus!
