//! The asynchronous frame handler kept for the direct preview mode, where
//! frames go straight to the screen: it only records whether it was started,
//! and takes and gives no frames.
use vstd::prelude::*;
use std::time::{Duration, Instant};
use slint::Image;
use crate::frame::{CapturedFrame, FrameError};

verus! {

/// A frame once processed, with when it was captured and how long it took.
pub struct ProcessedFrame {
    pub image: Image,
    pub timestamp: Instant,
    pub frame_number: u64,
    pub processing_time: Duration,
}

/// A frame handler that does no work in direct preview mode; it knows only
/// whether it is running.
pub struct AsyncFrameHandler {
    pub is_running: bool,
}

impl AsyncFrameHandler {
    /// A handler that has not been started.
    pub fn new() -> (handler: Self)
        ensures
            !handler.is_running,
    {
        AsyncFrameHandler { is_running: false }
    }

    /// Starting succeeds and leaves the handler running.
    pub fn start(&mut self) -> (r: Result<(), FrameError>)
        ensures
            r is Ok,
            final(self).is_running,
    {
        self.is_running = true;
        Ok(())
    }

    /// Stopping succeeds and leaves the handler stopped.
    pub fn stop(&mut self) -> (r: Result<(), FrameError>)
        ensures
            r is Ok,
            !final(self).is_running,
    {
        self.is_running = false;
        Ok(())
    }

    /// Submitting a frame succeeds; the frame is dropped.
    pub fn submit_captured_frame(&self, _frame: CapturedFrame) -> (r: Result<(), FrameError>)
        ensures
            r is Ok,
    {
        Ok(())
    }

    /// There is never a processed frame to take.
    pub fn get_next_frame(&self) -> (frame: Option<ProcessedFrame>)
        ensures
            frame is None,
    {
        None
    }
}

} // verus!
