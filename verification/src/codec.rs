//! Decoding and resampling of compressed frames with the `image` crate.
use vstd::prelude::*;

verus! {

/// A decoded image: its size and its RGBA bytes, four per pixel, row by row.
pub struct DecodedImage {
    pub width: u32,
    pub height: u32,
    pub pixels: Vec<u8>,
}

/// What decoding `data` with the `image` crate's own format detection gives,
/// converted to RGBA: the width, height and bytes of the image, or the text of
/// the decoder's error.
pub uninterp spec fn image_decode_rgba8(data: Seq<u8>) -> Result<(u32, u32, Seq<u8>), Seq<char>>;

/// The plain values of a decoding result.
pub open spec fn decoded_view(r: Result<DecodedImage, String>) -> Result<(u32, u32, Seq<u8>), Seq<char>> {
    match r {
        Ok(d) => Ok((d.width, d.height, d.pixels@)),
        Err(e) => Err(e@),
    }
}

/// `image::guess_format`, then `image::load_from_memory_with_format` and
/// `to_rgba8`: picks the format from the fixed table of magic bytes that the
/// crate carries, decodes the bytes in that format and converts the pixels to
/// RGBA. Neither call consults the hooks that a process may register with the
/// crate (those are read only where no built-in format is given), so the result
/// is a function of the bytes alone; an RGBA image buffer holds exactly four
/// bytes per pixel.
#[verifier::external_body]
pub(crate) fn decode_rgba8(data: &[u8]) -> (r: Result<DecodedImage, String>)
    ensures
        decoded_view(r) == image_decode_rgba8(data@),
        r matches Ok(d) ==> d.pixels@.len() == d.width * d.height * 4,
{
    let decoded = match image::guess_format(data) {
        Ok(format) => image::load_from_memory_with_format(data, format),
        Err(e) => Err(e),
    };
    match decoded {
        Ok(decoded) => {
            let rgba = decoded.to_rgba8();
            let (width, height) = rgba.dimensions();
            Ok(DecodedImage { width, height, pixels: rgba.into_raw() })
        },
        Err(e) => Err(e.to_string()),
    }
}

/// `image::imageops::resize` with the Lanczos3 filter, on a decoded RGBA
/// image: the result has the new size and four bytes for each of its pixels.
/// The sampled values rest on floating-point sine, whose precision Rust
/// leaves to the platform, so no clause names them.
#[verifier::external_body]
pub(crate) fn resize_rgba8_lanczos3(image: DecodedImage, new_width: u32, new_height: u32) -> (resized: DecodedImage)
    requires
        image.pixels@.len() == image.width * image.height * 4,
        new_width * new_height * 4 <= usize::MAX,
    ensures
        resized.width == new_width,
        resized.height == new_height,
        resized.pixels@.len() == new_width * new_height * 4,
{
    let source = image::RgbaImage::from_raw(image.width, image.height, image.pixels).expect("four bytes per pixel");
    let scaled = image::imageops::resize(&source, new_width, new_height, image::imageops::FilterType::Lanczos3);
    let (width, height) = scaled.dimensions();
    DecodedImage { width, height, pixels: scaled.into_raw() }
}

} // verus!
