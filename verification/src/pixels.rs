//! Byte layouts of camera frames and the channel reorderings between them.
//!
//! A camera hands out pixels in blue-first order (BGR, 3 bytes per pixel, or
//! BGRA, 4 bytes per pixel); the display wants red-first order (RGB or RGBA).
//! The spec functions here say, byte by byte, what each reordering produces.
use vstd::prelude::*;

verus! {

/// Byte `j` of the RGBA image made from the BGR bytes `bgr`: red, green and
/// blue come from bytes 2, 1 and 0 of the source pixel, alpha is opaque.
pub open spec fn bgr_to_rgba_at(bgr: Seq<u8>, j: int) -> u8 {
    let p = j / 4;
    let c = j % 4;
    if c == 0 {
        bgr[3 * p + 2]
    } else if c == 1 {
        bgr[3 * p + 1]
    } else if c == 2 {
        bgr[3 * p]
    } else {
        255u8
    }
}

/// Byte `j` of the RGBA image made from the BGRA bytes `bgra`: the first three
/// bytes of each pixel are reversed and alpha stays in place.
pub open spec fn bgra_to_rgba_at(bgra: Seq<u8>, j: int) -> u8 {
    let p = j / 4;
    let c = j % 4;
    if c == 0 {
        bgra[4 * p + 2]
    } else if c == 1 {
        bgra[4 * p + 1]
    } else if c == 2 {
        bgra[4 * p]
    } else {
        bgra[4 * p + 3]
    }
}

/// Byte `j` of the RGB image made from the BGR bytes `bgr`: the three bytes of
/// each pixel are reversed.
pub open spec fn bgr_to_rgb_at(bgr: Seq<u8>, j: int) -> u8 {
    let p = j / 3;
    let c = j % 3;
    if c == 0 {
        bgr[3 * p + 2]
    } else if c == 1 {
        bgr[3 * p + 1]
    } else {
        bgr[3 * p]
    }
}

/// The RGBA image of the whole BGR pixels in `bgr` (a trailing partial pixel
/// is ignored).
pub open spec fn bgr_to_rgba(bgr: Seq<u8>) -> Seq<u8> {
    Seq::new(((bgr.len() / 3) * 4) as nat, |j: int| bgr_to_rgba_at(bgr, j))
}

/// The RGBA image of the whole BGRA pixels in `bgra`.
pub open spec fn bgra_to_rgba(bgra: Seq<u8>) -> Seq<u8> {
    Seq::new(((bgra.len() / 4) * 4) as nat, |j: int| bgra_to_rgba_at(bgra, j))
}

/// The RGB image of the whole BGR pixels in `bgr`.
pub open spec fn bgr_to_rgb(bgr: Seq<u8>) -> Seq<u8> {
    Seq::new(((bgr.len() / 3) * 3) as nat, |j: int| bgr_to_rgb_at(bgr, j))
}

/// The four bytes of pixel `p` of a four-byte-per-pixel image.
pub open spec fn pixel4(bytes: Seq<u8>, p: int) -> (u8, u8, u8, u8) {
    (bytes[4 * p], bytes[4 * p + 1], bytes[4 * p + 2], bytes[4 * p + 3])
}

/// The three bytes of pixel `p` of a three-byte-per-pixel image.
pub open spec fn pixel3(bytes: Seq<u8>, p: int) -> (u8, u8, u8) {
    (bytes[3 * p], bytes[3 * p + 1], bytes[3 * p + 2])
}

/// Pixel `p` lies wholly inside an image of `len` bytes with `size` bytes per pixel.
pub(crate) proof fn lemma_whole_pixel(len: int, size: int, p: int)
    requires
        size > 0,
        len >= 0,
        0 <= p < len / size,
    ensures
        0 <= size * p,
        size * p + size <= (len / size) * size,
        (len / size) * size <= len,
{
    assert(size * p + size <= (len / size) * size) by (nonlinear_arith)
        requires size > 0, 0 <= p < len / size;
    assert((len / size) * size <= len) by (nonlinear_arith)
        requires size > 0, len >= 0;
    assert(0 <= size * p) by (nonlinear_arith)
        requires size > 0, p >= 0;
}

/// BGRA to RGBA, pixel by pixel, whatever the pixels hold: the image has one
/// pixel for each whole pixel of the input, and pixel `p` of it is pixel `p`
/// of the input, `(b, g, r, a)`, as `(r, g, b, a)`.
pub proof fn lemma_bgra_to_rgba_pixels(bgra: Seq<u8>)
    ensures
        bgra_to_rgba(bgra).len() == (bgra.len() / 4) * 4,
        forall|p: int| 0 <= p < bgra.len() / 4 ==> #[trigger] pixel4(bgra_to_rgba(bgra), p) == (
            pixel4(bgra, p).2,
            pixel4(bgra, p).1,
            pixel4(bgra, p).0,
            pixel4(bgra, p).3,
        ),
{
    assert forall|p: int| 0 <= p < bgra.len() / 4 implies #[trigger] pixel4(bgra_to_rgba(bgra), p) == (
        pixel4(bgra, p).2,
        pixel4(bgra, p).1,
        pixel4(bgra, p).0,
        pixel4(bgra, p).3,
    ) by {
        lemma_whole_pixel(bgra.len() as int, 4, p);
        assert((4 * p) / 4 == p && (4 * p) % 4 == 0);
        assert((4 * p + 1) / 4 == p && (4 * p + 1) % 4 == 1);
        assert((4 * p + 2) / 4 == p && (4 * p + 2) % 4 == 2);
        assert((4 * p + 3) / 4 == p && (4 * p + 3) % 4 == 3);
    }
}

/// BGR to RGBA, pixel by pixel, whatever the pixels hold: pixel `p` of the
/// input, `(b, g, r)`, becomes `(r, g, b, 255)`.
pub proof fn lemma_bgr_to_rgba_pixels(bgr: Seq<u8>)
    ensures
        bgr_to_rgba(bgr).len() == (bgr.len() / 3) * 4,
        forall|p: int| 0 <= p < bgr.len() / 3 ==> #[trigger] pixel4(bgr_to_rgba(bgr), p) == (
            pixel3(bgr, p).2,
            pixel3(bgr, p).1,
            pixel3(bgr, p).0,
            255u8,
        ),
{
    assert forall|p: int| 0 <= p < bgr.len() / 3 implies #[trigger] pixel4(bgr_to_rgba(bgr), p) == (
        pixel3(bgr, p).2,
        pixel3(bgr, p).1,
        pixel3(bgr, p).0,
        255u8,
    ) by {
        lemma_whole_pixel(bgr.len() as int, 3, p);
        assert(4 * p + 3 < (bgr.len() / 3) * 4) by (nonlinear_arith)
            requires 0 <= p < bgr.len() / 3;
        assert((4 * p) / 4 == p && (4 * p) % 4 == 0);
        assert((4 * p + 1) / 4 == p && (4 * p + 1) % 4 == 1);
        assert((4 * p + 2) / 4 == p && (4 * p + 2) % 4 == 2);
        assert((4 * p + 3) / 4 == p && (4 * p + 3) % 4 == 3);
    }
}

/// BGR to RGB, pixel by pixel, whatever the pixels hold: pixel `p` of the
/// input, `(b, g, r)`, becomes `(r, g, b)`.
pub proof fn lemma_bgr_to_rgb_pixels(bgr: Seq<u8>)
    ensures
        bgr_to_rgb(bgr).len() == (bgr.len() / 3) * 3,
        forall|p: int| 0 <= p < bgr.len() / 3 ==> #[trigger] pixel3(bgr_to_rgb(bgr), p) == (
            pixel3(bgr, p).2,
            pixel3(bgr, p).1,
            pixel3(bgr, p).0,
        ),
{
    assert forall|p: int| 0 <= p < bgr.len() / 3 implies #[trigger] pixel3(bgr_to_rgb(bgr), p) == (
        pixel3(bgr, p).2,
        pixel3(bgr, p).1,
        pixel3(bgr, p).0,
    ) by {
        lemma_whole_pixel(bgr.len() as int, 3, p);
        assert((3 * p) / 3 == p && (3 * p) % 3 == 0);
        assert((3 * p + 1) / 3 == p && (3 * p + 1) % 3 == 1);
        assert((3 * p + 2) / 3 == p && (3 * p + 2) % 3 == 2);
    }
}

/// Reordering four-byte pixels twice gives back the whole pixels of the input:
/// the BGRA to RGBA swap is its own inverse.
pub proof fn lemma_bgra_swap_involution(bgra: Seq<u8>)
    ensures
        bgra_to_rgba(bgra_to_rgba(bgra)) == bgra.take(((bgra.len() / 4) * 4) as int),
{
    let once = bgra_to_rgba(bgra);
    let twice = bgra_to_rgba(once);
    let n: int = ((bgra.len() / 4) * 4) as int;
    assert(once.len() == n);
    assert(twice.len() == n);
    assert forall|j: int| 0 <= j < n implies twice[j] == bgra[j] by {
        let p = j / 4;
        assert(0 <= 4 * p && 4 * p + 3 < n);
        assert((4 * p + 2) / 4 == p && (4 * p + 2) % 4 == 2);
        assert((4 * p + 1) / 4 == p && (4 * p + 1) % 4 == 1);
        assert((4 * p) / 4 == p && (4 * p) % 4 == 0);
        assert((4 * p + 3) / 4 == p && (4 * p + 3) % 4 == 3);
    }
    assert(twice =~= bgra.take(n));
}

/// Reordering three-byte pixels twice gives back the whole pixels of the
/// input: the BGR to RGB swap is its own inverse.
pub proof fn lemma_bgr_swap_involution(bgr: Seq<u8>)
    ensures
        bgr_to_rgb(bgr_to_rgb(bgr)) == bgr.take(((bgr.len() / 3) * 3) as int),
{
    let once = bgr_to_rgb(bgr);
    let twice = bgr_to_rgb(once);
    let n: int = ((bgr.len() / 3) * 3) as int;
    assert(once.len() == n);
    assert(twice.len() == n);
    assert forall|j: int| 0 <= j < n implies twice[j] == bgr[j] by {
        let p = j / 3;
        assert(0 <= 3 * p && 3 * p + 2 < n);
        assert((3 * p + 2) / 3 == p && (3 * p + 2) % 3 == 2);
        assert((3 * p + 1) / 3 == p && (3 * p + 1) % 3 == 1);
        assert((3 * p) / 3 == p && (3 * p) % 3 == 0);
    }
    assert(twice =~= bgr.take(n));
}

/// Expanding BGR pixels to RGBA and dropping the alpha byte gives the same
/// colours as the three-byte swap, and every alpha byte is opaque.
pub proof fn lemma_bgr_to_rgba_extends_rgb(bgr: Seq<u8>, p: int)
    requires
        0 <= p < bgr.len() / 3,
    ensures
        bgr_to_rgba(bgr)[4 * p] == bgr_to_rgb(bgr)[3 * p],
        bgr_to_rgba(bgr)[4 * p + 1] == bgr_to_rgb(bgr)[3 * p + 1],
        bgr_to_rgba(bgr)[4 * p + 2] == bgr_to_rgb(bgr)[3 * p + 2],
        bgr_to_rgba(bgr)[4 * p + 3] == 255,
{
    assert((4 * p) / 4 == p && (4 * p) % 4 == 0);
    assert((4 * p + 1) / 4 == p && (4 * p + 1) % 4 == 1);
    assert((4 * p + 2) / 4 == p && (4 * p + 2) % 4 == 2);
    assert((4 * p + 3) / 4 == p && (4 * p + 3) % 4 == 3);
    assert((3 * p) / 3 == p && (3 * p) % 3 == 0);
    assert((3 * p + 1) / 3 == p && (3 * p + 1) % 3 == 1);
    assert((3 * p + 2) / 3 == p && (3 * p + 2) % 3 == 2);
}

} // verus!
