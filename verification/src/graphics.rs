//! Pixel buffers and images of the UI toolkit (slint), as far as this library
//! builds them.
//!
//! The toolkit's types are opaque here. What a buffer or an image holds is
//! spoken of through the names below, which only the wrappers of this file
//! give facts about.
use vstd::prelude::*;
use slint::{Image, Rgb8Pixel, Rgba8Pixel, SharedPixelBuffer};

verus! {

#[verifier::external_type_specification]
#[verifier::external_body]
#[verifier::reject_recursive_types(Pixel)]
pub struct ExSharedPixelBuffer<Pixel>(SharedPixelBuffer<Pixel>);

#[verifier::external_type_specification]
#[verifier::external_body]
pub struct ExImage(Image);

#[verifier::external_type_specification]
#[verifier::external_body]
#[verifier::reject_recursive_types(T)]
#[verifier::reject_recursive_types(A)]
pub struct ExRgba<T, A>(rgb::Rgba<T, A>);

#[verifier::external_type_specification]
#[verifier::external_body]
#[verifier::reject_recursive_types(T)]
pub struct ExRgb<T>(rgb::Rgb<T>);

/// The bytes of an RGBA pixel buffer, four per pixel, as its `as_bytes` gives them.
pub uninterp spec fn rgba8_buffer_bytes(buffer: SharedPixelBuffer<Rgba8Pixel>) -> Seq<u8>;

/// The width and height of an RGBA pixel buffer.
pub uninterp spec fn rgba8_buffer_size(buffer: SharedPixelBuffer<Rgba8Pixel>) -> (u32, u32);

/// The bytes of an RGB pixel buffer, three per pixel, as its `as_bytes` gives them.
pub uninterp spec fn rgb8_buffer_bytes(buffer: SharedPixelBuffer<Rgb8Pixel>) -> Seq<u8>;

/// The width and height of an RGB pixel buffer.
pub uninterp spec fn rgb8_buffer_size(buffer: SharedPixelBuffer<Rgb8Pixel>) -> (u32, u32);

/// The bytes of the RGBA pixel buffer that an image's `to_rgba8` gives, if any.
pub uninterp spec fn image_rgba8_bytes(image: Image) -> Option<Seq<u8>>;

/// The bytes of the RGB pixel buffer that an image's `to_rgb8` gives, if any.
pub uninterp spec fn image_rgb8_bytes(image: Image) -> Option<Seq<u8>>;

/// The width and height of an image, as its `size` gives them.
pub uninterp spec fn image_size(image: Image) -> (u32, u32);

/// The RGBA bytes of the whole RGB pixels in `rgb`, each made opaque.
pub open spec fn rgb_to_rgba_opaque(rgb: Seq<u8>) -> Seq<u8> {
    Seq::new(
        ((rgb.len() / 3) * 4) as nat,
        |j: int|
            {
                let p = j / 4;
                let c = j % 4;
                if c == 3 {
                    255u8
                } else {
                    rgb[3 * p + c]
                }
            },
    )
}

/// `SharedPixelBuffer::<Rgba8Pixel>::clone_from_slice`: copies the pixels of
/// `bytes` (four bytes each, a trailing partial pixel dropped) into a new
/// buffer of the given size. It panics unless the pixel count is
/// `width * height`, which `requires` rules out.
#[verifier::external_body]
pub(crate) fn clone_rgba8_pixels(bytes: &[u8], width: u32, height: u32) -> (buffer: SharedPixelBuffer<Rgba8Pixel>)
    requires
        bytes@.len() / 4 == width * height,
    ensures
        rgba8_buffer_bytes(buffer) == bytes@.take(width * height * 4),
        rgba8_buffer_size(buffer) == (width, height),
{
    SharedPixelBuffer::<Rgba8Pixel>::clone_from_slice(bytes, width, height)
}

/// `SharedPixelBuffer::<Rgb8Pixel>::clone_from_slice`: copies the pixels of
/// `bytes` (three bytes each, a trailing partial pixel dropped) into a new
/// buffer of the given size. It panics unless the pixel count is
/// `width * height`, which `requires` rules out.
#[verifier::external_body]
pub(crate) fn clone_rgb8_pixels(bytes: &[u8], width: u32, height: u32) -> (buffer: SharedPixelBuffer<Rgb8Pixel>)
    requires
        bytes@.len() / 3 == width * height,
    ensures
        rgb8_buffer_bytes(buffer) == bytes@.take(width * height * 3),
        rgb8_buffer_size(buffer) == (width, height),
{
    SharedPixelBuffer::<Rgb8Pixel>::clone_from_slice(bytes, width, height)
}

/// `Image::from_rgba8`: wraps the buffer as an image; `to_rgba8` then gives the
/// same pixels back, `to_rgb8` gives nothing, and the size is the buffer's.
#[verifier::external_body]
pub(crate) fn image_from_rgba8(buffer: SharedPixelBuffer<Rgba8Pixel>) -> (image: Image)
    ensures
        image_rgba8_bytes(image) == Some(rgba8_buffer_bytes(buffer)),
        image_rgb8_bytes(image) == None::<Seq<u8>>,
        image_size(image) == rgba8_buffer_size(buffer),
{
    Image::from_rgba8(buffer)
}

/// `Image::from_rgb8`: wraps the buffer as an image; `to_rgb8` then gives the
/// same pixels back, `to_rgba8` gives them with an opaque alpha byte added to
/// each, and the size is the buffer's.
#[verifier::external_body]
pub(crate) fn image_from_rgb8(buffer: SharedPixelBuffer<Rgb8Pixel>) -> (image: Image)
    ensures
        image_rgb8_bytes(image) == Some(rgb8_buffer_bytes(buffer)),
        image_rgba8_bytes(image) == Some(rgb_to_rgba_opaque(rgb8_buffer_bytes(buffer))),
        image_size(image) == rgb8_buffer_size(buffer),
{
    Image::from_rgb8(buffer)
}

} // verus!
