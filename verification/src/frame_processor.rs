//! Conversion of captured frames into toolkit images, keeping RGB frames in
//! three bytes per pixel and resampling decoded frames to the announced size.
use vstd::prelude::*;
use slint::{Image, Rgba8Pixel, SharedPixelBuffer};
use crate::codec::{decode_rgba8, decoded_view, image_decode_rgba8, resize_rgba8_lanczos3, DecodedImage};
use crate::frame::{CapturedFrame, FrameError};
use crate::graphics::{
    clone_rgb8_pixels, clone_rgba8_pixels, image_from_rgb8, image_from_rgba8, image_rgb8_bytes,
    image_rgba8_bytes, image_size, rgb_to_rgba_opaque, rgba8_buffer_bytes,
};
use crate::pixels::{
    bgr_to_rgb, bgr_to_rgb_at, bgr_to_rgba, bgra_to_rgba, bgra_to_rgba_at, lemma_bgr_to_rgb_pixels,
    lemma_bgra_to_rgba_pixels, pixel3, pixel4,
};
use crate::slint_renderer::render_result_matches;

verus! {

/// The RGB bytes of the whole BGR pixels in `data`, each pixel's bytes reversed.
pub fn swap_bgr_to_rgb(data: &[u8]) -> (rgb: Vec<u8>)
    ensures
        rgb@ == bgr_to_rgb(data@),
        rgb@.len() == (data@.len() / 3) * 3,
        forall|p: int| 0 <= p < data@.len() / 3 ==> #[trigger] pixel3(rgb@, p) == (
            pixel3(data@, p).2,
            pixel3(data@, p).1,
            pixel3(data@, p).0,
        ),
{
    let pixels = data.len() / 3;
    let ghost src = data@;
    let in_len = data.len();
    let mut rgb: Vec<u8> = Vec::new();
    let mut i: usize = 0;
    while i < pixels
        invariant
            src == data@,
            pixels == src.len() / 3,
            in_len == src.len(),
            i <= pixels,
            rgb@.len() == i * 3,
            forall|j: int| 0 <= j < i * 3 ==> rgb@[j] == #[trigger] bgr_to_rgb_at(src, j),
        decreases pixels - i,
    {
        let s = i * 3;
        rgb.push(data[s + 2]);
        rgb.push(data[s + 1]);
        rgb.push(data[s]);
        proof {
            assert((s as int) / 3 == i as int && (s as int) % 3 == 0);
            assert(((s + 1) as int) / 3 == i as int && ((s + 1) as int) % 3 == 1);
            assert(((s + 2) as int) / 3 == i as int && ((s + 2) as int) % 3 == 2);
            assert(bgr_to_rgb_at(src, s as int) == rgb@[s as int]);
            assert(bgr_to_rgb_at(src, s + 1) == rgb@[s + 1]);
            assert(bgr_to_rgb_at(src, s + 2) == rgb@[s + 2]);
        }
        i = i + 1;
    }
    assert(rgb@ =~= bgr_to_rgb(src));
    proof {
        lemma_bgr_to_rgb_pixels(src);
    }
    rgb
}

/// The RGBA bytes of the whole BGRA pixels in `data`: the first three bytes of
/// each pixel reversed, alpha kept.
pub fn swap_bgra_to_rgba(data: &[u8]) -> (rgba: Vec<u8>)
    ensures
        rgba@ == bgra_to_rgba(data@),
        rgba@.len() == (data@.len() / 4) * 4,
        forall|p: int| 0 <= p < data@.len() / 4 ==> #[trigger] pixel4(rgba@, p) == (
            pixel4(data@, p).2,
            pixel4(data@, p).1,
            pixel4(data@, p).0,
            pixel4(data@, p).3,
        ),
{
    let pixels = data.len() / 4;
    let ghost src = data@;
    let in_len = data.len();
    let mut rgba: Vec<u8> = Vec::new();
    let mut i: usize = 0;
    while i < pixels
        invariant
            src == data@,
            pixels == src.len() / 4,
            in_len == src.len(),
            i <= pixels,
            rgba@.len() == i * 4,
            forall|j: int| 0 <= j < i * 4 ==> rgba@[j] == #[trigger] bgra_to_rgba_at(src, j),
        decreases pixels - i,
    {
        let s = i * 4;
        rgba.push(data[s + 2]);
        rgba.push(data[s + 1]);
        rgba.push(data[s]);
        rgba.push(data[s + 3]);
        proof {
            assert((s as int) / 4 == i as int && (s as int) % 4 == 0);
            assert(((s + 1) as int) / 4 == i as int && ((s + 1) as int) % 4 == 1);
            assert(((s + 2) as int) / 4 == i as int && ((s + 2) as int) % 4 == 2);
            assert(((s + 3) as int) / 4 == i as int && ((s + 3) as int) % 4 == 3);
            assert(bgra_to_rgba_at(src, s as int) == rgba@[s as int]);
            assert(bgra_to_rgba_at(src, s + 1) == rgba@[s + 1]);
            assert(bgra_to_rgba_at(src, s + 2) == rgba@[s + 2]);
            assert(bgra_to_rgba_at(src, s + 3) == rgba@[s + 3]);
        }
        i = i + 1;
    }
    assert(rgba@ =~= bgra_to_rgba(src));
    proof {
        lemma_bgra_to_rgba_pixels(src);
    }
    rgba
}

/// An RGBA image of the given size holding exactly `pixels`.
pub fn rgba_image(pixels: Vec<u8>, width: u32, height: u32) -> (image: Image)
    requires
        pixels@.len() == width * height * 4,
    ensures
        image_rgba8_bytes(image) == Some(pixels@),
        image_rgb8_bytes(image) == None::<Seq<u8>>,
        image_size(image) == (width, height),
{
    let buffer = clone_rgba8_pixels(pixels.as_slice(), width, height);
    assert(pixels@.take(width * height * 4) =~= pixels@);
    image_from_rgba8(buffer)
}

/// What processing a frame gives, `image` being the image of a successful
/// result: BGR frames become RGB images with the colour bytes reversed, BGRA
/// frames become RGBA images with the colour bytes reversed, and compressed
/// frames become RGBA images of the announced size, holding the decoded
/// pixels when the decoded size already matches.
pub open spec fn processed_image(frame: &CapturedFrame, image: Image) -> bool {
    let data = frame.data@;
    &&& image_size(image) == (frame.width, frame.height)
    &&& if data.len() == frame.rgb_len() {
        &&& image_rgb8_bytes(image) == Some(bgr_to_rgb(data))
        &&& image_rgba8_bytes(image) == Some(rgb_to_rgba_opaque(bgr_to_rgb(data)))
    } else if data.len() == frame.rgba_len() {
        &&& image_rgb8_bytes(image) == None::<Seq<u8>>
        &&& image_rgba8_bytes(image) == Some(bgra_to_rgba(data))
    } else {
        &&& image_rgb8_bytes(image) == None::<Seq<u8>>
        &&& match image_decode_rgba8(data) {
            Ok((w, h, decoded)) => if w == frame.width && h == frame.height {
                image_rgba8_bytes(image) == Some(decoded)
            } else {
                image_rgba8_bytes(image) matches Some(bytes) && bytes.len() == frame.rgba_len()
            },
            Err(_) => false,
        }
    }
}

/// What processing a frame gives: its image, or, for a compressed frame the
/// decoder refuses, the decoder's error text after a fixed prefix.
pub open spec fn processed_result(frame: &CapturedFrame, r: Result<Image, FrameError>) -> bool {
    let data = frame.data@;
    if data.len() != frame.rgb_len() && data.len() != frame.rgba_len() && image_decode_rgba8(data) is Err {
        r matches Err(FrameError::Decode(m)) && m@ == "Failed to decode compressed image: "@
            + image_decode_rgba8(data)->Err_0
    } else {
        r matches Ok(image) && processed_image(frame, image)
    }
}

/// Expanding the RGB image of BGR pixels with opaque alpha gives the RGBA
/// image made from them directly.
pub proof fn lemma_rgb_expansion_is_bgr_to_rgba(data: Seq<u8>)
    ensures
        rgb_to_rgba_opaque(bgr_to_rgb(data)) == bgr_to_rgba(data),
{
    let k = data.len() / 3;
    let rgb = bgr_to_rgb(data);
    assert(rgb.len() == k * 3);
    assert((k * 3) / 3 == k) by (nonlinear_arith);
    let left = rgb_to_rgba_opaque(rgb);
    let right = bgr_to_rgba(data);
    assert(left.len() == right.len());
    assert forall|j: int| 0 <= j < left.len() implies left[j] == right[j] by {
        let p = j / 4;
        let c = j % 4;
        assert(0 <= p < k);
        if c != 3 {
            assert(0 <= 3 * p + c < rgb.len());
            assert((3 * p + c) / 3 == p && (3 * p + c) % 3 == c);
            assert(left[j] == rgb[3 * p + c]);
            assert(rgb[3 * p + c] == bgr_to_rgb_at(data, 3 * p + c));
        }
    }
    assert(left =~= right);
}

/// The processor and the renderer show the same pixels: for a raw frame, and
/// for a compressed frame that decodes at the frame's size, the RGBA pixels
/// of the processed image are those of the rendered buffer.
pub proof fn lemma_processor_matches_renderer(
    frame: &CapturedFrame,
    image: Image,
    buffer: SharedPixelBuffer<Rgba8Pixel>,
)
    requires
        processed_image(frame, image),
        render_result_matches(frame, Ok(buffer)),
        frame.data@.len() == frame.rgb_len() || frame.data@.len() == frame.rgba_len() || (
        image_decode_rgba8(frame.data@) matches Ok((w, h, _decoded)) && w == frame.width && h
            == frame.height),
    ensures
        image_rgba8_bytes(image) == Some(rgba8_buffer_bytes(buffer)),
{
    let data = frame.data@;
    if data.len() == frame.rgb_len() {
        lemma_rgb_expansion_is_bgr_to_rgba(data);
        if data.len() == frame.rgba_len() {
            assert(data.len() == 0);
            assert(bgra_to_rgba(data) =~= bgr_to_rgba(data));
        }
    }
}

/// The frame is compressed and decodes at a size other than the one it
/// announces, so processing resamples it.
pub open spec fn resampled(frame: &CapturedFrame) -> bool {
    &&& frame.data@.len() != frame.rgb_len()
    &&& frame.data@.len() != frame.rgba_len()
    &&& image_decode_rgba8(frame.data@) matches Ok((w, h, _decoded)) && (w != frame.width || h
        != frame.height)
}

/// The outcome of processing depends on the frame alone, not on the size a
/// processor was made for: any two outcomes for the same frame (from
/// processors made with any sizes) both succeed or both fail with the same
/// text, and their images have the same size and the same RGB pixels; their
/// RGBA pixels are the same too, except for a resampled frame, whose
/// floating-point samples no clause names and of which both hold as many bytes.
pub proof fn lemma_processing_depends_on_frame_only(
    frame: &CapturedFrame,
    first: Result<Image, FrameError>,
    second: Result<Image, FrameError>,
)
    requires
        processed_result(frame, first),
        processed_result(frame, second),
    ensures
        first is Ok <==> second is Ok,
        first matches Err(FrameError::Decode(a)) ==> (second matches Err(FrameError::Decode(b)) && a@ == b@),
        first matches Ok(a) ==> (second matches Ok(b) && image_size(a) == image_size(b)
            && image_rgb8_bytes(a) == image_rgb8_bytes(b) && (!resampled(frame) ==> image_rgba8_bytes(a)
            == image_rgba8_bytes(b)) && (resampled(frame) ==> (image_rgba8_bytes(a) matches Some(x)
            && image_rgba8_bytes(b) matches Some(y) && x.len() == y.len()))),
{
}

/// Converts captured frames into toolkit images.
pub struct FrameProcessor {}

impl FrameProcessor {
    /// A processor for frames of the given size; it keeps no state.
    pub fn new(_width: u32, _height: u32) -> (processor: Self) {
        FrameProcessor {}
    }

    /// Turns a captured frame into an image of the frame's size: BGR frames
    /// become RGB images, BGRA frames RGBA images, both with red and blue
    /// swapped into place; anything else is decoded as a compressed image and
    /// resampled with a Lanczos filter when its size differs from the frame's.
    pub fn process_frame(&mut self, frame: &CapturedFrame) -> (r: Result<Image, FrameError>)
        requires
            frame.size_fits(),
        ensures
            processed_result(frame, r),
    {
        let width = frame.width;
        let height = frame.height;
        proof {
            assert(width * height <= u32::MAX) by (nonlinear_arith)
                requires width * height * 4 <= u32::MAX;
        }
        let image_data = frame.data.as_slice();
        let expected_rgb = (width * height * 3) as usize;
        let expected_rgba = (width * height * 4) as usize;

        if image_data.len() == expected_rgb {
            let rgb_data = swap_bgr_to_rgb(image_data);
            proof {
                assert((image_data@.len() / 3) * 3 == image_data@.len());
            }
            let pixel_buffer = clone_rgb8_pixels(rgb_data.as_slice(), width, height);
            assert(rgb_data@.take(width * height * 3) =~= rgb_data@);
            return Ok(image_from_rgb8(pixel_buffer));
        } else if image_data.len() == expected_rgba {
            let rgba_data = swap_bgra_to_rgba(image_data);
            proof {
                assert((image_data@.len() / 4) * 4 == image_data@.len());
            }
            return Ok(rgba_image(rgba_data, width, height));
        } else {
            process_decoded(decode_rgba8(image_data), width, height)
        }
    }
}

/// What processing gives for the result of decoding a compressed frame of the
/// given size: an RGBA image of that size, holding the decoded pixels when the
/// decoded size is already that size and as many bytes as the size asks for
/// otherwise; or the decoder's error text after a fixed prefix.
pub open spec fn processed_decoded(
    decoded: Result<(u32, u32, Seq<u8>), Seq<char>>,
    width: u32,
    height: u32,
    r: Result<Image, FrameError>,
) -> bool {
    match decoded {
        Ok((w, h, bytes)) => r matches Ok(image) && image_size(image) == (width, height)
            && image_rgb8_bytes(image) == None::<Seq<u8>> && if w == width && h == height {
            image_rgba8_bytes(image) == Some(bytes)
        } else {
            image_rgba8_bytes(image) matches Some(b) && b.len() == width as int * height as int * 4
        },
        Err(e) => r matches Err(FrameError::Decode(m)) && m@ == "Failed to decode compressed image: "@
            + e,
    }
}

/// Turns what decoding a compressed frame gave into an image of the frame's
/// size, resampling with a Lanczos filter when the decoded size differs.
pub fn process_decoded(decoded: Result<DecodedImage, String>, width: u32, height: u32) -> (r: Result<Image, FrameError>)
    requires
        width as int * height as int * 4 <= u32::MAX,
        decoded matches Ok(d) ==> d.pixels@.len() == d.width * d.height * 4,
    ensures
        processed_decoded(decoded_view(decoded), width, height, r),
{
    match decoded {
        Ok(decoded) => {
            if decoded.width != width || decoded.height != height {
                let resized = resize_rgba8_lanczos3(decoded, width, height);
                Ok(rgba_image(resized.pixels, resized.width, resized.height))
            } else {
                Ok(rgba_image(decoded.pixels, width, height))
            }
        },
        Err(e) => {
            let mut message = String::from_str("Failed to decode compressed image: ");
            message.append(e.as_str());
            Err(FrameError::Decode(message))
        },
    }
}

/// Processes one frame without keeping a processor around.
pub fn process_frame_optimized(frame: &CapturedFrame) -> (r: Result<Image, FrameError>)
    requires
        frame.size_fits(),
    ensures
        processed_result(frame, r),
{
    let mut processor = FrameProcessor::new(frame.width, frame.height);
    processor.process_frame(frame)
}

} // verus!
