use rust_video_devices::nokhwa_camera::{
    completion_poll, next_format, no_format_message, sleep_after, CameraAbort, FormatRequest,
    FpsSample, FrameTimeBuffer, StreamPacer,
};
use std::sync::atomic::{AtomicBool, Ordering};
use std::sync::Arc;

#[test]
fn frame_time_buffer_counts_and_sums() {
    let mut buffer = FrameTimeBuffer::new();
    assert_eq!(buffer.count(), 0);
    assert_eq!(buffer.total(), 0);
    buffer.push(10);
    buffer.push(20);
    assert_eq!(buffer.count(), 2);
    assert_eq!(buffer.total(), 30);
    buffer.clear();
    assert_eq!(buffer.count(), 0);
    assert_eq!(buffer.total(), 0);
    buffer.push(5);
    assert_eq!(buffer.total(), 5);
}

#[test]
fn frame_time_buffer_keeps_the_last_sixty() {
    let mut buffer = FrameTimeBuffer::new();
    for t in 1..=61u64 {
        buffer.push(t);
    }
    assert_eq!(buffer.count(), 60);
    assert_eq!(buffer.total(), (2..=61u128).sum::<u128>());
    for t in 62..=200u64 {
        buffer.push(t);
    }
    assert_eq!(buffer.total(), (141..=200u128).sum::<u128>());
}

#[test]
fn sleep_fills_the_frame_period() {
    assert_eq!(sleep_after(0), Some(16_000_000));
    assert_eq!(sleep_after(10_000_000), Some(6_000_000));
    assert_eq!(sleep_after(15_500_000), None);
    assert_eq!(sleep_after(15_499_999), Some(500_001));
    assert_eq!(sleep_after(16_000_000), None);
    assert_eq!(sleep_after(40_000_000), None);
}

#[test]
fn pacer_refreshes_the_rate_once_a_second() {
    let mut pacer = StreamPacer::new();
    assert_eq!(pacer.fps_sample(), FpsSample { frames: 0, total_nanos: 0 });
    pacer.record_frame(Some(20_000_000));
    pacer.record_frame(Some(30_000_000));
    assert!(!pacer.refresh(999_999_999));
    assert_eq!(pacer.fps_sample().frames, 0);
    assert!(pacer.refresh(1_000_000_000));
    assert_eq!(pacer.fps_sample(), FpsSample { frames: 2, total_nanos: 50_000_000 });
    pacer.record_frame(None);
    assert!(!pacer.refresh(1_500_000_000));
    assert_eq!(pacer.fps_sample().frames, 2);
    assert!(pacer.refresh(2_000_000_000));
    assert_eq!(pacer.fps_sample(), FpsSample { frames: 0, total_nanos: 0 });
}

#[test]
fn formats_are_tried_in_order() {
    assert_eq!(next_format(0), Some(FormatRequest::Rgba));
    assert_eq!(next_format(1), Some(FormatRequest::Rgb));
    assert_eq!(next_format(2), Some(FormatRequest::Yuyv));
    assert_eq!(next_format(3), None);
    assert_eq!(no_format_message(), "No se pudo crear la cámara con ningún formato soportado");
}

#[test]
fn abort_raises_the_flag() {
    let flag = Arc::new(AtomicBool::new(false));
    let handle = CameraAbort::new(flag.clone());
    assert!(!handle.is_aborted());
    handle.abort();
    assert!(flag.load(Ordering::SeqCst));
}

#[test]
fn dropping_the_handle_raises_the_flag() {
    let flag = Arc::new(AtomicBool::new(false));
    {
        let _handle = CameraAbort::new(flag.clone());
    }
    assert!(flag.load(Ordering::SeqCst));
}

#[test]
fn completion_poll_decides() {
    assert_eq!(completion_poll(true, 0, 0), Some(true));
    assert_eq!(completion_poll(true, 10, 5), Some(true));
    assert_eq!(completion_poll(false, 10, 5), Some(false));
    assert_eq!(completion_poll(false, 5, 5), None);
}

#[test]
fn cleared_buffer_counts_only_new_times() {
    let mut buffer = FrameTimeBuffer::new();
    for t in 1..=70u64 {
        buffer.push(t);
    }
    buffer.clear();
    for t in 100..=104u64 {
        buffer.push(t);
    }
    assert_eq!(buffer.count(), 5);
    assert_eq!(buffer.total(), 510);
}

#[test]
fn wait_gives_up_after_the_timeout() {
    let timeout: u128 = 5_000_000;
    let mut outcome = None;
    for i in 0..100u128 {
        if let Some(done) = completion_poll(false, i * 1_000_000, timeout) {
            outcome = Some((i, done));
            break;
        }
    }
    assert_eq!(outcome, Some((6, false)));
}

#[test]
fn wait_ends_when_the_flag_is_seen() {
    let timeout: u128 = 5_000_000;
    let flags = [false, false, true, false];
    let mut outcome = None;
    for (i, flag) in flags.iter().enumerate() {
        if let Some(done) = completion_poll(*flag, i as u128 * 1_000_000, timeout) {
            outcome = Some((i, done));
            break;
        }
    }
    assert_eq!(outcome, Some((2, true)));
}

#[test]
fn pacer_reports_the_last_sixty_frames_since_a_failure() {
    let mut pacer = StreamPacer::new();
    let mut now: u128 = 0;
    for t in 1..=30u64 {
        pacer.record_frame(Some(t));
        now += 10_000_000;
        pacer.refresh(now);
    }
    pacer.record_frame(None);
    for t in 100..=199u64 {
        pacer.record_frame(Some(t));
        now += 10_000_000;
        pacer.refresh(now);
    }
    assert_eq!(pacer.fps_sample(), FpsSample { frames: 60, total_nanos: (110..=169u128).sum() });
}
