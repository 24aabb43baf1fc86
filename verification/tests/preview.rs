use rust_video_devices::async_frame_handler::AsyncFrameHandler;
use rust_video_devices::direct_preview::{PreviewCounters, PreviewReport};
use rust_video_devices::frame::CapturedFrame;

#[test]
fn new_counters_report_nothing() {
    let counters = PreviewCounters::new();
    assert_eq!(counters.snapshot(), PreviewReport { frames: 0, total_conversion_nanos: 0 });
}

#[test]
fn counters_report_every_thousand_frames() {
    let mut counters = PreviewCounters::new();
    for _ in 0..999 {
        assert!(counters.record_conversion(2).is_none());
    }
    assert_eq!(counters.snapshot(), PreviewReport { frames: 999, total_conversion_nanos: 1998 });
    assert_eq!(
        counters.record_conversion(2),
        Some(PreviewReport { frames: 1000, total_conversion_nanos: 2000 })
    );
    assert_eq!(counters.snapshot(), PreviewReport { frames: 0, total_conversion_nanos: 0 });
}

#[test]
fn frame_handler_does_nothing() {
    let mut handler = AsyncFrameHandler::new();
    assert!(!handler.is_running);
    assert!(handler.start().is_ok());
    assert!(handler.submit_captured_frame(CapturedFrame { width: 1, height: 1, data: vec![0; 3] }).is_ok());
    assert!(handler.get_next_frame().is_none());
    assert!(handler.stop().is_ok());
}

#[test]
fn counters_after_many_recordings() {
    let mut counters = PreviewCounters::new();
    for d in 1..=2503u64 {
        counters.record_conversion(d);
    }
    assert_eq!(counters.snapshot(), PreviewReport { frames: 503, total_conversion_nanos: (2001..=2503u128).sum() });
}

#[test]
fn test_frame_handler_lifecycle() {
    let mut handler = AsyncFrameHandler::new();

    assert!(handler.start().is_ok());
    assert!(handler.is_running);

    assert!(handler.stop().is_ok());
    assert!(!handler.is_running);
}
