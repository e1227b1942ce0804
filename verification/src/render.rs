//! Rendering still thumbnails: decode the sticker, scale it to its thumbnail
//! size with a Lanczos filter, and encode the result as lossless WebP.
use vstd::prelude::*;
use crate::media::{thumb_size, thumb_size_defined, thumbnail_dimensions, thumbnail_size_defined};

verus! {

/// The size an image file's header announces, as `image` reads it.
pub uninterp spec fn header_dimensions(file: Seq<u8>) -> Option<(u32, u32)>;

/// An image file decoded by `image` and converted to 8-bit RGBA: its width,
/// height and pixels.
pub uninterp spec fn decoded_rgba(file: Seq<u8>) -> Option<(u32, u32, Seq<u8>)>;

/// RGBA pixels of a `w` by `h` image scaled to `tw` by `th` by `fast_image_resize`
/// with the Lanczos3 convolution filter.
pub uninterp spec fn lanczos_resized(pixels: Seq<u8>, w: u32, h: u32, tw: u32, th: u32) -> Seq<u8>;

/// A `w` by `h` RGBA image encoded as a lossless WebP file by `image`.
pub uninterp spec fn lossless_webp(pixels: Seq<u8>, w: u32, h: u32) -> Seq<u8>;

/// `image::ImageReader::into_dimensions` after guessing the format from the
/// content: the size the file's header announces, when the format is known.
#[verifier::external_body]
fn read_dimensions(file: &[u8]) -> (r: Option<(u32, u32)>)
    ensures
        r == header_dimensions(file@),
{
    match image::ImageReader::new(std::io::Cursor::new(file)).with_guessed_format() {
        Ok(reader) => reader.into_dimensions().ok(),
        Err(_) => None,
    }
}

/// `image::ImageReader::decode` after guessing the format from the content,
/// then `to_rgba8`: the width, height and RGBA pixels (at least four bytes per
/// pixel) of a decodable image.
#[verifier::external_body]
pub(crate) fn decode_rgba(file: &[u8]) -> (r: Option<(u32, u32, Vec<u8>)>)
    ensures
        r matches Some((w, h, p)) ==> decoded_rgba(file@) == Some((w, h, p@)) && p@.len() >= w * h
            * 4,
        r is None ==> decoded_rgba(file@) is None,
{
    let reader = match image::ImageReader::new(std::io::Cursor::new(file)).with_guessed_format() {
        Ok(reader) => reader,
        Err(_) => return None,
    };
    match reader.decode() {
        Ok(img) => Some((img.width(), img.height(), img.to_rgba8().into_raw())),
        Err(_) => None,
    }
}

/// `fast_image_resize::Resizer::resize` with the Lanczos3 convolution: the
/// `tw` by `th` RGBA result, `tw * th * 4` bytes long.
#[verifier::external_body]
fn resize_rgba(pixels: Vec<u8>, w: u32, h: u32, tw: u32, th: u32) -> (r: Vec<u8>)
    requires
        pixels@.len() >= w * h * 4,
    ensures
        r@ == lanczos_resized(pixels@, w, h, tw, th),
        r@.len() == tw * th * 4,
{
    let src = fast_image_resize::images::Image::from_vec_u8(w, h, pixels, fast_image_resize::PixelType::U8x4).unwrap();
    let mut dst = fast_image_resize::images::Image::new(tw, th, src.pixel_type());
    let options = fast_image_resize::ResizeOptions::new().resize_alg(
        fast_image_resize::ResizeAlg::Convolution(fast_image_resize::FilterType::Lanczos3),
    );
    fast_image_resize::Resizer::new().resize(&src, &mut dst, &options).unwrap();
    dst.into_vec()
}

/// `image::write_buffer_with_format` with lossless WebP: the encoded file.
#[verifier::external_body]
fn encode_webp(pixels: &[u8], w: u32, h: u32) -> (r: Vec<u8>)
    requires
        0 < w <= 16384,
        0 < h <= 16384,
        pixels@.len() == w * h * 4,
    ensures
        r@ == lossless_webp(pixels@, w, h),
{
    let mut out = std::io::Cursor::new(Vec::new());
    image::write_buffer_with_format(
        &mut out,
        pixels,
        w,
        h,
        image::ColorType::Rgba8,
        image::ImageFormat::WebP,
    ).unwrap();
    out.into_inner()
}

/// The size of an image file, when its header can be read.
pub fn image_dimensions(file: &[u8]) -> (r: Option<(u32, u32)>)
    ensures
        r == header_dimensions(file@),
{
    read_dimensions(file)
}

/// Whether a `w` by `h` image can be given a WebP thumbnail: its thumbnail size
/// can be computed and lies between 1 and 16384 on both sides.
pub open spec fn still_thumb_renderable(w: u32, h: u32) -> bool {
    &&& thumb_size_defined(w, h)
    &&& 0 < thumb_size(w, h).0 <= 16384
    &&& 0 < thumb_size(w, h).1 <= 16384
}

/// The WebP thumbnail of decoded RGBA pixels: scaled to the thumbnail size and
/// encoded losslessly.
pub fn thumbnail_webp(w: u32, h: u32, pixels: Vec<u8>) -> (r: Vec<u8>)
    requires
        pixels@.len() >= w * h * 4,
        still_thumb_renderable(w, h),
    ensures
        r@ == lossless_webp(
            lanczos_resized(pixels@, w, h, thumb_size(w, h).0, thumb_size(w, h).1),
            thumb_size(w, h).0,
            thumb_size(w, h).1,
        ),
{
    let (tw, th) = thumbnail_dimensions(w, h);
    let scaled = resize_rgba(pixels, w, h, tw, th);
    encode_webp(scaled.as_slice(), tw, th)
}

/// The outcome of rendering a still sticker's thumbnail.
pub enum StillThumb {
    /// The file cannot be decoded: the sticker serves as its own thumbnail.
    Undecodable,
    /// The decoded image is `w` by `h`, whose thumbnail size cannot be encoded.
    OutOfRange(u32, u32),
    /// The encoded WebP thumbnail.
    Rendered(Vec<u8>),
}

/// Renders the thumbnail of a still sticker whose file holds `file`.
pub fn render_still_thumbnail(file: &[u8]) -> (r: StillThumb)
    ensures
        decoded_rgba(file@) is None <==> r is Undecodable,
        decoded_rgba(file@) matches Some((w, h, p)) ==> {
            &&& !still_thumb_renderable(w, h) ==> r == StillThumb::OutOfRange(w, h)
            &&& still_thumb_renderable(w, h) ==> (r matches StillThumb::Rendered(b) && b@
                == lossless_webp(
                lanczos_resized(p, w, h, thumb_size(w, h).0, thumb_size(w, h).1),
                thumb_size(w, h).0,
                thumb_size(w, h).1,
            ))
        },
{
    match decode_rgba(file) {
        None => StillThumb::Undecodable,
        Some((w, h, pixels)) => {
            if !thumbnail_size_defined(w, h) {
                return StillThumb::OutOfRange(w, h);
            }
            let (tw, th) = thumbnail_dimensions(w, h);
            if tw == 0 || tw > 16384 || th == 0 || th > 16384 {
                return StillThumb::OutOfRange(w, h);
            }
            StillThumb::Rendered(thumbnail_webp(w, h, pixels))
        },
    }
}

} // verus!
