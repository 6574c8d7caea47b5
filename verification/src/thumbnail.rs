//! Window thumbnails: a captured RGBA frame scaled to a fixed size by the
//! `image` crate.

use vstd::prelude::*;

use image::{ImageBuffer, Rgba};

verus! {

/// Width of a window thumbnail in pixels.
pub const THUMBNAIL_WIDTH: u32 = 480;

/// Height of a window thumbnail in pixels.
pub const THUMBNAIL_HEIGHT: u32 = 300;

/// An RGBA image of the `image` crate, held opaquely: Verus cannot declare
/// `ImageBuffer` itself, whose pixel parameter is bound by a trait of that
/// crate.
#[verifier::external_body]
pub struct ImageData {
    buffer: ImageBuffer<Rgba<u8>, Vec<u8>>,
}

/// The bytes an RGBA image buffer holds, row by row.
pub uninterp spec fn image_bytes(image: ImageData) -> Seq<u8>;

/// The width of an RGBA image buffer.
pub uninterp spec fn image_width(image: ImageData) -> u32;

/// The height of an RGBA image buffer.
pub uninterp spec fn image_height(image: ImageData) -> u32;

/// The pixels `image::imageops::thumbnail` computes when it scales a
/// `width` x `height` RGBA image with bytes `rgba` to `new_width` x
/// `new_height`.
pub uninterp spec fn thumbnail_pixels(
    rgba: Seq<u8>,
    width: u32,
    height: u32,
    new_width: u32,
    new_height: u32,
) -> Seq<u8>;

/// `ImageBuffer::from_raw`: wraps `rgba` as a `width` x `height` RGBA image
/// when it holds at least four bytes per pixel, and gives nothing
/// otherwise.
#[verifier::external_body]
fn rgba_image(width: u32, height: u32, rgba: Vec<u8>) -> (image: Option<
    ImageData,
>)
    ensures
        image is Some <==> width * height * 4 <= rgba@.len(),
        image matches Some(image) ==> image_bytes(image) == rgba@ && image_width(image) == width
            && image_height(image) == height,
{
    ImageBuffer::from_raw(width, height, rgba).map(|buffer| ImageData { buffer })
}

/// `image::imageops::thumbnail`: scales `image` to exactly `new_width` x
/// `new_height` pixels. The new image holds four bytes per pixel; what the
/// pixels are is left to [`thumbnail_pixels`].
#[verifier::external_body]
fn scaled_image(image: &ImageData, new_width: u32, new_height: u32) -> (thumbnail: ImageData)
    requires
        new_width * new_height * 4 <= usize::MAX,
    ensures
        image_width(thumbnail) == new_width,
        image_height(thumbnail) == new_height,
        image_bytes(thumbnail) == thumbnail_pixels(
            image_bytes(*image),
            image_width(*image),
            image_height(*image),
            new_width,
            new_height,
        ),
        image_bytes(thumbnail).len() == new_width * new_height * 4,
{
    ImageData { buffer: image::imageops::thumbnail(&image.buffer, new_width, new_height) }
}

/// `ImageBuffer::into_raw`: the bytes of the image.
#[verifier::external_body]
fn image_into_bytes(image: ImageData) -> (bytes: Vec<u8>)
    ensures
        bytes@ == image_bytes(image),
{
    image.buffer.into_raw()
}

/// Why a thumbnail could not be made.
#[derive(Debug, Clone, Copy, PartialEq, Eq, Structural)]
pub enum ThumbnailError {
    /// The frame holds fewer than four bytes per pixel.
    InvalidBuffer,
}

/// Scales a `width` x `height` RGBA frame to a
/// [`THUMBNAIL_WIDTH`] x [`THUMBNAIL_HEIGHT`] thumbnail.
pub fn thumbnail_rgba(rgba: Vec<u8>, width: u32, height: u32) -> (thumbnail: Result<Vec<u8>, ThumbnailError>)
    ensures
        thumbnail is Ok <==> width * height * 4 <= rgba@.len(),
        thumbnail matches Ok(pixels) ==> pixels@ == thumbnail_pixels(
            rgba@,
            width,
            height,
            THUMBNAIL_WIDTH,
            THUMBNAIL_HEIGHT,
        ) && pixels@.len() == THUMBNAIL_WIDTH * THUMBNAIL_HEIGHT * 4,
{
    let ghost bytes = rgba@;
    match rgba_image(width, height, rgba) {
        None => Err(ThumbnailError::InvalidBuffer),
        Some(image) => {
            let scaled = scaled_image(&image, THUMBNAIL_WIDTH, THUMBNAIL_HEIGHT);
            Ok(image_into_bytes(scaled))
        },
    }
}

} // verus!
