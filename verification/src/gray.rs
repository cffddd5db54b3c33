//! The grayscale image buffer of the `image` crate, as far as the fingerprint
//! reads it: its dimensions and the brightness of its pixels.

use vstd::prelude::*;

verus! {

/// A grayscale image with one byte per pixel: an `image::GrayImage`, kept
/// opaque. Contracts speak of it through [`image_width`], [`image_height`]
/// and [`image_values`].
#[verifier::external_body]
pub struct GrayImage {
    inner: image::GrayImage,
}

/// The brightness of every pixel of `img`, row by row from the top, each row
/// from left to right.
pub uninterp spec fn image_values(img: GrayImage) -> Seq<u8>;

/// The number of pixels in a row of `img`.
pub uninterp spec fn image_width(img: GrayImage) -> nat;

/// The number of rows of `img`.
pub uninterp spec fn image_height(img: GrayImage) -> nat;

/// `ImageBuffer::from_raw`: an image of the given dimensions over `pixels`,
/// or nothing where `pixels` is too short to hold `width * height` bytes.
/// Bytes beyond `width * height` are not part of the image.
#[verifier::external_body]
fn buffer_from_raw(width: u32, height: u32, pixels: Vec<u8>) -> (r: Option<GrayImage>)
    ensures
        r is Some <==> width * height <= pixels@.len(),
        r matches Some(img) ==> {
            &&& image_width(img) == width
            &&& image_height(img) == height
            &&& image_values(img) == pixels@.take(width * height)
        },
{
    match image::GrayImage::from_raw(width, height, pixels) {
        Some(inner) => Some(GrayImage { inner }),
        None => None,
    }
}

/// `ImageBuffer::width`: the width that the image was made with.
#[verifier::external_body]
pub(crate) fn buffer_width(img: &GrayImage) -> (w: u32)
    ensures
        w == image_width(*img),
{
    img.inner.width()
}

/// `ImageBuffer::height`: the height that the image was made with.
#[verifier::external_body]
pub(crate) fn buffer_height(img: &GrayImage) -> (h: u32)
    ensures
        h == image_height(*img),
{
    img.inner.height()
}

/// `ImageBuffer::enumerate_pixels`: every pixel with its column and its row.
/// The pixels come row by row from the top and from left to right within a
/// row, so the pixel at position `k` lies in column `k % width` of row
/// `k / width`. There are `width * height` of them.
#[verifier::external_body]
pub(crate) fn buffer_enumerate(img: &GrayImage) -> (out: Vec<(u32, u32, u8)>)
    ensures
        out@.len() == image_width(*img) * image_height(*img),
        out@.len() == image_values(*img).len(),
        forall|k: int|
            0 <= k < out@.len() ==> {
                &&& (#[trigger] out@[k]).0 == k % (image_width(*img) as int)
                &&& out@[k].1 == k / (image_width(*img) as int)
                &&& out@[k].2 == image_values(*img)[k]
            },
{
    img.inner.enumerate_pixels().map(|(x, y, pix)| (x, y, pix.0[0])).collect()
}

impl GrayImage {
    /// Builds an image of `width` by `height` pixels from their brightness
    /// values in row-major order. Fails where `pixels` holds fewer than
    /// `width * height` values; values beyond that count are left out.
    pub fn from_raw(width: u32, height: u32, pixels: Vec<u8>) -> (r: Option<GrayImage>)
        ensures
            r is Some <==> width * height <= pixels@.len(),
            r matches Some(img) ==> {
                &&& image_width(img) == width
                &&& image_height(img) == height
                &&& image_values(img) == pixels@.take(width * height)
            },
    {
        buffer_from_raw(width, height, pixels)
    }
}

} // verus!
