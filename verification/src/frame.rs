//! Captured frames as the library sees them, and the errors of turning them
//! into images.
use vstd::prelude::*;

verus! {

/// One frame as a camera delivers it: its resolution and its raw bytes.
///
/// The bytes are BGR (three per pixel) or BGRA (four per pixel) when their
/// count says so; any other count is taken to be a compressed (MJPEG) image.
pub struct CapturedFrame {
    pub width: u32,
    pub height: u32,
    pub data: Vec<u8>,
}

impl CapturedFrame {
    /// Number of pixels the resolution announces.
    pub open spec fn pixel_count(&self) -> int {
        self.width as int * self.height as int
    }

    /// The resolution is small enough for the byte counts of a four-byte
    /// image of it to be computed in `u32`.
    pub open spec fn size_fits(&self) -> bool {
        self.pixel_count() * 4 <= u32::MAX
    }

    /// Byte count of a three-byte-per-pixel image at this resolution.
    pub open spec fn rgb_len(&self) -> int {
        self.pixel_count() * 3
    }

    /// Byte count of a four-byte-per-pixel image at this resolution.
    pub open spec fn rgba_len(&self) -> int {
        self.pixel_count() * 4
    }
}

/// Why a frame could not be turned into an image.
#[derive(Debug)]
pub enum FrameError {
    /// The bytes were neither a raw image of the announced resolution nor a
    /// compressed image that the decoder accepts; the text says why.
    Decode(String),
}

impl FrameError {
    /// The text of the error, as it is shown to the user.
    pub fn message(&self) -> (text: String)
        ensures
            match self {
                FrameError::Decode(m) => text@ == m@,
            },
    {
        match self {
            FrameError::Decode(m) => m.clone(),
        }
    }
}

} // verus!
