//! Rendering of captured frames into RGBA pixel buffers, reusing scratch
//! memory between frames.
use vstd::prelude::*;
use std::collections::HashMap;
use std::collections::hash_map::Entry;
use slint::{Rgba8Pixel, SharedPixelBuffer};
use crate::buffer_pool::{pooled_buffer, zeroed};
use crate::codec::{decode_rgba8, decoded_view, image_decode_rgba8, DecodedImage};
use crate::frame::{CapturedFrame, FrameError};
use crate::graphics::{clone_rgba8_pixels, rgba8_buffer_bytes, rgba8_buffer_size};
use crate::pixels::{
    bgr_to_rgba, bgra_to_rgba, bgr_to_rgba_at, bgra_to_rgba_at, lemma_bgr_to_rgba_pixels,
    lemma_bgra_to_rgba_pixels, lemma_whole_pixel, pixel3, pixel4,
};

verus! {

/// Scratch buffers kept between frames, one per byte size, so that converting
/// a frame of a size seen before allocates nothing.
pub struct BufferPool {
    buffers_pool: HashMap<usize, Vec<u8>>,
}

impl View for BufferPool {
    type V = Map<usize, Seq<u8>>;

    /// The contents of each kept buffer, by the size it was made for.
    closed spec fn view(&self) -> Map<usize, Seq<u8>> {
        self.buffers_pool@.map_values(|v: Vec<u8>| v@)
    }
}

impl BufferPool {
    /// Every kept buffer still has the size it was made for.
    pub open spec fn wf(&self) -> bool {
        forall|k: usize| self@.contains_key(k) ==> (#[trigger] self@[k]).len() == k
    }

    /// An empty pool.
    pub fn new() -> (pool: Self)
        ensures
            pool@ == Map::<usize, Seq<u8>>::empty(),
            pool.wf(),
    {
        let pool = BufferPool { buffers_pool: HashMap::new() };
        assert(pool@ =~= Map::<usize, Seq<u8>>::empty());
        pool
    }

    /// The buffer kept for `size`, made as `size` zero bytes the first time
    /// that size is asked for. Whatever the caller leaves in it is kept for
    /// the next request of the same size.
    pub fn get_buffer(&mut self, size: usize) -> (buf: &mut Vec<u8>)
        ensures
            buf@ == pooled_buffer(old(self)@, size),
            final(self)@ == old(self)@.insert(size, final(buf)@),
    {
        broadcast use vstd::std_specs::hash::group_hash_axioms;
        match self.buffers_pool.entry(size) {
            Entry::Occupied(occupied) => occupied.into_mut(),
            Entry::Vacant(vacant) => {
                let fresh: Vec<u8> = vec![0u8; size];
                assert(fresh@ =~= zeroed(size as nat));
                vacant.insert(fresh)
            },
        }
    }
}

/// The RGBA bytes that rendering a frame of the given size and bytes yields,
/// or the decoder's error text: four-byte frames are taken as BGRA, three-byte
/// frames as BGR, anything else is decoded as a compressed image.
pub open spec fn rendered_rgba(data: Seq<u8>, width: u32, height: u32) -> Result<Seq<u8>, Seq<char>> {
    let pixels = width as int * height as int;
    if data.len() == pixels * 4 {
        Ok(bgra_to_rgba(data))
    } else if data.len() == pixels * 3 {
        Ok(bgr_to_rgba(data))
    } else {
        match image_decode_rgba8(data) {
            Ok((_w, _h, decoded)) => Ok(decoded),
            Err(e) => Err(e),
        }
    }
}

/// The frame goes through the scratch pool: its bytes are raw BGR or BGRA.
pub open spec fn uses_pool(frame: &CapturedFrame) -> bool {
    frame.data@.len() == frame.rgba_len() || frame.data@.len() == frame.rgb_len()
}

/// A compressed frame, if it decodes, decodes to as many pixels as the frame
/// announces.
pub open spec fn decoded_fits(frame: &CapturedFrame) -> bool {
    !uses_pool(frame) ==> match image_decode_rgba8(frame.data@) {
        Ok((w, h, _decoded)) => w as int * h as int == frame.pixel_count(),
        Err(_) => true,
    }
}

/// `r` is what rendering `frame` gives: a buffer of the frame's size holding
/// `rendered_rgba`, or the decoder's error text.
pub open spec fn render_result_matches(frame: &CapturedFrame, r: Result<SharedPixelBuffer<Rgba8Pixel>, FrameError>) -> bool {
    match rendered_rgba(frame.data@, frame.width, frame.height) {
        Ok(bytes) => r matches Ok(b) && rgba8_buffer_bytes(b) == bytes && rgba8_buffer_size(b) == (
            frame.width,
            frame.height,
        ),
        Err(msg) => r matches Err(FrameError::Decode(m)) && m@ == msg,
    }
}

/// What a rendered raw frame shows, pixel by pixel, whatever the pixels
/// hold: a BGRA frame's pixel `(b, g, r, a)` becomes `(r, g, b, a)`, and a BGR
/// frame's pixel `(b, g, r)` becomes `(r, g, b, 255)`.
pub proof fn lemma_rendered_raw_pixels(frame: &CapturedFrame, buffer: SharedPixelBuffer<Rgba8Pixel>)
    requires
        render_result_matches(frame, Ok(buffer)),
    ensures
        frame.data@.len() == frame.rgba_len() ==> forall|p: int| 0 <= p < frame.data@.len() / 4
            ==> #[trigger] pixel4(rgba8_buffer_bytes(buffer), p) == (
            pixel4(frame.data@, p).2,
            pixel4(frame.data@, p).1,
            pixel4(frame.data@, p).0,
            pixel4(frame.data@, p).3,
        ),
        frame.data@.len() == frame.rgb_len() && frame.data@.len() != frame.rgba_len() ==> forall|p: int|
            0 <= p < frame.data@.len() / 3 ==> #[trigger] pixel4(rgba8_buffer_bytes(buffer), p) == (
            pixel3(frame.data@, p).2,
            pixel3(frame.data@, p).1,
            pixel3(frame.data@, p).0,
            255u8,
        ),
{
    lemma_bgra_to_rgba_pixels(frame.data@);
    lemma_bgr_to_rgba_pixels(frame.data@);
}

/// The pool after rendering `frame`: a raw frame leaves its RGBA image in the
/// scratch buffer for its RGBA byte count; a compressed one leaves the pool
/// as it was.
pub open spec fn pool_after_render(pool: Map<usize, Seq<u8>>, frame: &CapturedFrame) -> Map<usize, Seq<u8>> {
    if uses_pool(frame) {
        pool.insert(frame.rgba_len() as usize, rendered_rgba(frame.data@, frame.width, frame.height)->Ok_0)
    } else {
        pool
    }
}

/// Renders a captured frame into an RGBA pixel buffer of the frame's size.
///
/// BGRA frames have their colour bytes reordered, BGR frames are expanded with
/// an opaque alpha byte, both through the pool's scratch buffer for the
/// frame's RGBA byte count, which is left holding the result. Any other frame
/// is decoded as a compressed image; its decoding error is returned as is.
pub fn render_frame(pool: &mut BufferPool, frame: &CapturedFrame) -> (r: Result<SharedPixelBuffer<Rgba8Pixel>, FrameError>)
    requires
        frame.size_fits(),
        decoded_fits(frame),
        old(pool).wf(),
    ensures
        final(pool).wf(),
        render_result_matches(frame, r),
        final(pool)@ == pool_after_render(old(pool)@, frame),
{
    let width = frame.width;
    let height = frame.height;
    proof {
        assert(width * height * 4 <= u32::MAX);
        assert(width * height <= u32::MAX) by (nonlinear_arith)
            requires width * height * 4 <= u32::MAX;
    }
    let expected_rgb = (width * height * 3) as usize;
    let expected_rgba = (width * height * 4) as usize;
    let image_data = frame.data.as_slice();

    if image_data.len() == expected_rgba {
        proof {
            assert((image_data@.len() / 4) * 4 == image_data@.len());
        }
        let rgba_data = pool.get_buffer(expected_rgba);
        convert_bgra_to_rgba(rgba_data.as_mut_slice(), image_data)?;
        assert(rgba_data@ =~= bgra_to_rgba(image_data@));
        let pixel_buffer = clone_rgba8_pixels(rgba_data.as_slice(), width, height);
        assert(rgba_data@.take(width * height * 4) =~= rgba_data@);
        return Ok(pixel_buffer);
    }

    if image_data.len() == expected_rgb {
        proof {
            assert((image_data@.len() / 3) * 4 == expected_rgba);
        }
        let rgba_data = pool.get_buffer(expected_rgba);
        convert_bgr_to_rgba(rgba_data.as_mut_slice(), image_data)?;
        assert(rgba_data@ =~= bgr_to_rgba(image_data@));
        let pixel_buffer = clone_rgba8_pixels(rgba_data.as_slice(), width, height);
        assert(rgba_data@.take(width * height * 4) =~= rgba_data@);
        return Ok(pixel_buffer);
    }

    render_decoded(decode_rgba8(image_data), width, height)
}

/// The decoded image is one that a frame of the given size may show: its
/// bytes are four per pixel and it has as many pixels as the frame announces.
pub open spec fn decoded_at_size(decoded: Result<DecodedImage, String>, width: u32, height: u32) -> bool {
    decoded matches Ok(d) ==> d.pixels@.len() == d.width * d.height * 4 && d.width as int
        * d.height as int == width as int * height as int
}

/// Renders what decoding a compressed frame gave: the decoded pixels in a
/// buffer announced at the frame's size, or the decoder's error text.
pub fn render_decoded(decoded: Result<DecodedImage, String>, width: u32, height: u32) -> (r: Result<SharedPixelBuffer<Rgba8Pixel>, FrameError>)
    requires
        decoded_at_size(decoded, width, height),
    ensures
        match decoded_view(decoded) {
            Ok((_w, _h, bytes)) => r matches Ok(b) && rgba8_buffer_bytes(b) == bytes
                && rgba8_buffer_size(b) == (width, height),
            Err(msg) => r matches Err(FrameError::Decode(m)) && m@ == msg,
        },
{
    match decoded {
        Ok(decoded) => {
            proof {
                assert(decoded.pixels@.len() / 4 == decoded.width * decoded.height);
            }
            let pixel_buffer = clone_rgba8_pixels(decoded.pixels.as_slice(), width, height);
            assert(decoded.pixels@.take(width * height * 4) =~= decoded.pixels@);
            Ok(pixel_buffer)
        },
        Err(message) => Err(FrameError::Decode(message)),
    }
}

/// Renders a frame as `render_frame` does where that cannot panic: when a
/// compressed frame decodes to a different number of pixels than the frame
/// announces, nothing is rendered, the pool is left as it was and the result
/// is `None`.
pub fn render_frame_checked(pool: &mut BufferPool, frame: &CapturedFrame) -> (r: Option<Result<SharedPixelBuffer<Rgba8Pixel>, FrameError>>)
    requires
        frame.size_fits(),
        old(pool).wf(),
    ensures
        final(pool).wf(),
        r is None <==> !decoded_fits(frame),
        r matches Some(rendered) ==> render_result_matches(frame, rendered),
        r is Some ==> final(pool)@ == pool_after_render(old(pool)@, frame),
        r is None ==> final(pool)@ == old(pool)@,
{
    let pixels = (frame.width as u64) * (frame.height as u64);
    let raw = (frame.data.len() as u64) == pixels * 4 || (frame.data.len() as u64) == pixels * 3;
    if raw {
        return Some(render_frame(pool, frame));
    }
    let decoded = decode_rgba8(frame.data.as_slice());
    if let Ok(image) = &decoded {
        proof {
            let (dw, dh) = (image.width as int, image.height as int);
            assert(dw * dh <= u32::MAX as int * u32::MAX as int) by (nonlinear_arith)
                requires 0 <= dw <= u32::MAX, 0 <= dh <= u32::MAX;
        }
        if (image.width as u64) * (image.height as u64) != pixels {
            return None;
        }
    }
    Some(render_decoded(decoded, frame.width, frame.height))
}

/// Writes the RGBA image of the BGR pixels in `bgr_data` into the front of
/// `rgba_buffer`: red, green and blue come from bytes 2, 1 and 0 of each
/// source pixel and alpha is always 255. Bytes past the converted pixels are
/// left as they were; a trailing partial source pixel is ignored.
pub fn convert_bgr_to_rgba(rgba_buffer: &mut [u8], bgr_data: &[u8]) -> (r: Result<(), FrameError>)
    requires
        old(rgba_buffer)@.len() >= (bgr_data@.len() / 3) * 4,
    ensures
        r is Ok,
        final(rgba_buffer)@.len() == old(rgba_buffer)@.len(),
        final(rgba_buffer)@.take(((bgr_data@.len() / 3) * 4) as int) == bgr_to_rgba(bgr_data@),
        final(rgba_buffer)@.skip(((bgr_data@.len() / 3) * 4) as int) == old(rgba_buffer)@.skip(((bgr_data@.len() / 3) * 4) as int),
        forall|p: int| 0 <= p < bgr_data@.len() / 3 ==> #[trigger] pixel4(final(rgba_buffer)@, p) == (
            pixel3(bgr_data@, p).2,
            pixel3(bgr_data@, p).1,
            pixel3(bgr_data@, p).0,
            255u8,
        ),
{
    let pixels = bgr_data.len() / 3;
    let ghost src = bgr_data@;
    let out_len = rgba_buffer.len();
    let mut i: usize = 0;
    while i < pixels
        invariant
            pixels == src.len() / 3,
            src == bgr_data@,
            i <= pixels,
            rgba_buffer@.len() == old(rgba_buffer)@.len(),
            rgba_buffer@.len() >= pixels * 4,
            out_len == rgba_buffer@.len(),
            forall|j: int| 0 <= j < i * 4 ==> rgba_buffer@[j] == #[trigger] bgr_to_rgba_at(src, j),
            forall|j: int| pixels * 4 <= j < rgba_buffer@.len() ==> rgba_buffer@[j] == old(rgba_buffer)@[j],
        decreases pixels - i,
    {
        let s = i * 3;
        let d = i * 4;
        rgba_buffer[d] = bgr_data[s + 2];
        rgba_buffer[d + 1] = bgr_data[s + 1];
        rgba_buffer[d + 2] = bgr_data[s];
        rgba_buffer[d + 3] = 255;
        proof {
            assert(((d as int)) / 4 == i as int && (d as int) % 4 == 0);
            assert(((d + 1) as int) / 4 == i as int && ((d + 1) as int) % 4 == 1);
            assert(((d + 2) as int) / 4 == i as int && ((d + 2) as int) % 4 == 2);
            assert(((d + 3) as int) / 4 == i as int && ((d + 3) as int) % 4 == 3);
            assert(bgr_to_rgba_at(src, d as int) == rgba_buffer@[d as int]);
            assert(bgr_to_rgba_at(src, d + 1) == rgba_buffer@[d + 1]);
            assert(bgr_to_rgba_at(src, d + 2) == rgba_buffer@[d + 2]);
            assert(bgr_to_rgba_at(src, d + 3) == rgba_buffer@[d + 3]);
        }
        i = i + 1;
    }
    assert(rgba_buffer@.take(((src.len() / 3) * 4) as int) =~= bgr_to_rgba(src));
    assert(rgba_buffer@.skip(((src.len() / 3) * 4) as int) =~= old(rgba_buffer)@.skip(((src.len() / 3) * 4) as int));
    proof {
        lemma_bgr_to_rgba_pixels(src);
        assert forall|p: int| 0 <= p < src.len() / 3 implies #[trigger] pixel4(rgba_buffer@, p) == pixel4(bgr_to_rgba(src), p) by {
            assert(4 * p + 3 < (src.len() / 3) * 4) by (nonlinear_arith)
                requires 0 <= p < src.len() / 3;
            assert(0 <= 4 * p) by (nonlinear_arith) requires 0 <= p;
        }
    }
    Ok(())
}

/// Writes the RGBA image of the BGRA pixels in `bgra_data` into the front of
/// `rgba_buffer`: the first three bytes of each pixel are reversed and alpha
/// is kept. Bytes past the converted pixels are left as they were; a trailing
/// partial source pixel is ignored.
pub fn convert_bgra_to_rgba(rgba_buffer: &mut [u8], bgra_data: &[u8]) -> (r: Result<(), FrameError>)
    requires
        old(rgba_buffer)@.len() >= (bgra_data@.len() / 4) * 4,
    ensures
        r is Ok,
        final(rgba_buffer)@.len() == old(rgba_buffer)@.len(),
        final(rgba_buffer)@.take(((bgra_data@.len() / 4) * 4) as int) == bgra_to_rgba(bgra_data@),
        final(rgba_buffer)@.skip(((bgra_data@.len() / 4) * 4) as int) == old(rgba_buffer)@.skip(((bgra_data@.len() / 4) * 4) as int),
        forall|p: int| 0 <= p < bgra_data@.len() / 4 ==> #[trigger] pixel4(final(rgba_buffer)@, p) == (
            pixel4(bgra_data@, p).2,
            pixel4(bgra_data@, p).1,
            pixel4(bgra_data@, p).0,
            pixel4(bgra_data@, p).3,
        ),
{
    let pixels = bgra_data.len() / 4;
    let ghost src = bgra_data@;
    let out_len = rgba_buffer.len();
    let mut i: usize = 0;
    while i < pixels
        invariant
            pixels == src.len() / 4,
            src == bgra_data@,
            i <= pixels,
            rgba_buffer@.len() == old(rgba_buffer)@.len(),
            rgba_buffer@.len() >= pixels * 4,
            out_len == rgba_buffer@.len(),
            forall|j: int| 0 <= j < i * 4 ==> rgba_buffer@[j] == #[trigger] bgra_to_rgba_at(src, j),
            forall|j: int| pixels * 4 <= j < rgba_buffer@.len() ==> rgba_buffer@[j] == old(rgba_buffer)@[j],
        decreases pixels - i,
    {
        let d = i * 4;
        rgba_buffer[d] = bgra_data[d + 2];
        rgba_buffer[d + 1] = bgra_data[d + 1];
        rgba_buffer[d + 2] = bgra_data[d];
        rgba_buffer[d + 3] = bgra_data[d + 3];
        proof {
            assert(((d as int)) / 4 == i as int && (d as int) % 4 == 0);
            assert(((d + 1) as int) / 4 == i as int && ((d + 1) as int) % 4 == 1);
            assert(((d + 2) as int) / 4 == i as int && ((d + 2) as int) % 4 == 2);
            assert(((d + 3) as int) / 4 == i as int && ((d + 3) as int) % 4 == 3);
            assert(bgra_to_rgba_at(src, d as int) == rgba_buffer@[d as int]);
            assert(bgra_to_rgba_at(src, d + 1) == rgba_buffer@[d + 1]);
            assert(bgra_to_rgba_at(src, d + 2) == rgba_buffer@[d + 2]);
            assert(bgra_to_rgba_at(src, d + 3) == rgba_buffer@[d + 3]);
        }
        i = i + 1;
    }
    assert(rgba_buffer@.take(((src.len() / 4) * 4) as int) =~= bgra_to_rgba(src));
    assert(rgba_buffer@.skip(((src.len() / 4) * 4) as int) =~= old(rgba_buffer)@.skip(((src.len() / 4) * 4) as int));
    proof {
        lemma_bgra_to_rgba_pixels(src);
        assert forall|p: int| 0 <= p < src.len() / 4 implies #[trigger] pixel4(rgba_buffer@, p) == pixel4(bgra_to_rgba(src), p) by {
            lemma_whole_pixel(src.len() as int, 4, p);
        }
    }
    Ok(())
}

} // verus!
