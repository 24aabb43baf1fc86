use rust_video_devices::frame::{CapturedFrame, FrameError};
use rust_video_devices::codec::DecodedImage;
use rust_video_devices::slint_renderer::{render_decoded, render_frame, render_frame_checked, BufferPool};

fn png_bytes(width: u32, height: u32, rgba: Vec<u8>) -> Vec<u8> {
    let image = image::RgbaImage::from_raw(width, height, rgba).unwrap();
    let mut out = std::io::Cursor::new(Vec::new());
    image.write_to(&mut out, image::ImageFormat::Png).unwrap();
    out.into_inner()
}

#[test]
fn bgra_frame_renders_reordered() {
    let mut pool = BufferPool::new();
    let frame = CapturedFrame { width: 2, height: 1, data: vec![1, 2, 3, 4, 5, 6, 7, 8] };
    let buffer = render_frame(&mut pool, &frame).unwrap();
    assert_eq!(buffer.width(), 2);
    assert_eq!(buffer.height(), 1);
    assert_eq!(buffer.as_bytes(), &[3, 2, 1, 4, 7, 6, 5, 8]);
    assert_eq!(pool.get_buffer(8).as_slice(), &[3, 2, 1, 4, 7, 6, 5, 8]);
}

#[test]
fn bgr_frame_renders_with_opaque_alpha() {
    let mut pool = BufferPool::new();
    let frame = CapturedFrame { width: 1, height: 2, data: vec![1, 2, 3, 4, 5, 6] };
    let buffer = render_frame(&mut pool, &frame).unwrap();
    assert_eq!(buffer.as_bytes(), &[3, 2, 1, 255, 6, 5, 4, 255]);
    assert_eq!(pool.get_buffer(8).as_slice(), &[3, 2, 1, 255, 6, 5, 4, 255]);
}

#[test]
fn pool_buffer_is_reused_between_frames() {
    let mut pool = BufferPool::new();
    let first = CapturedFrame { width: 1, height: 1, data: vec![1, 2, 3] };
    let second = CapturedFrame { width: 1, height: 1, data: vec![9, 8, 7, 6] };
    render_frame(&mut pool, &first).unwrap();
    let buffer = render_frame(&mut pool, &second).unwrap();
    assert_eq!(buffer.as_bytes(), &[7, 8, 9, 6]);
    assert_eq!(pool.get_buffer(4).as_slice(), &[7, 8, 9, 6]);
}

#[test]
fn png_frame_is_decoded() {
    let rgba = vec![10, 20, 30, 255, 40, 50, 60, 128];
    let frame = CapturedFrame { width: 2, height: 1, data: png_bytes(2, 1, rgba.clone()) };
    let mut pool = BufferPool::new();
    let buffer = render_frame(&mut pool, &frame).unwrap();
    assert_eq!(buffer.as_bytes(), rgba.as_slice());
    assert!(pool.get_buffer(8).iter().all(|b| *b == 0));
}

#[test]
fn undecodable_frame_is_an_error() {
    let frame = CapturedFrame { width: 4, height: 4, data: vec![1, 2, 3, 4, 5] };
    let mut pool = BufferPool::new();
    match render_frame(&mut pool, &frame) {
        Err(FrameError::Decode(message)) => assert!(!message.is_empty()),
        Ok(_) => panic!("garbage decoded"),
    }
}

#[test]
fn empty_frame_of_empty_size_renders_empty() {
    let frame = CapturedFrame { width: 0, height: 3, data: vec![] };
    let mut pool = BufferPool::new();
    let buffer = render_frame(&mut pool, &frame).unwrap();
    assert_eq!(buffer.as_bytes().len(), 0);
}

#[test]
fn checked_render_refuses_a_decoded_size_mismatch() {
    let frame = CapturedFrame { width: 3, height: 1, data: png_bytes(1, 1, vec![1, 2, 3, 4]) };
    let mut pool = BufferPool::new();
    assert!(render_frame_checked(&mut pool, &frame).is_none());
}

#[test]
fn checked_render_renders_what_fits() {
    let frame = CapturedFrame { width: 1, height: 1, data: png_bytes(1, 1, vec![1, 2, 3, 4]) };
    let mut pool = BufferPool::new();
    let buffer = render_frame_checked(&mut pool, &frame).unwrap().unwrap();
    assert_eq!(buffer.as_bytes(), &[1, 2, 3, 4]);
    let raw = CapturedFrame { width: 1, height: 1, data: vec![1, 2, 3] };
    let buffer = render_frame_checked(&mut pool, &raw).unwrap().unwrap();
    assert_eq!(buffer.as_bytes(), &[3, 2, 1, 255]);
    let bad = CapturedFrame { width: 1, height: 1, data: vec![0, 1] };
    assert!(matches!(render_frame_checked(&mut pool, &bad), Some(Err(FrameError::Decode(_)))));
}

#[test]
fn decoded_image_renders_at_the_frame_size() {
    let decoded = DecodedImage { width: 1, height: 2, pixels: vec![1, 2, 3, 4, 5, 6, 7, 8] };
    let buffer = render_decoded(Ok(decoded), 2, 1).unwrap();
    assert_eq!(buffer.width(), 2);
    assert_eq!(buffer.height(), 1);
    assert_eq!(buffer.as_bytes(), &[1, 2, 3, 4, 5, 6, 7, 8]);
    match render_decoded(Err(String::from("bad header")), 2, 1) {
        Err(FrameError::Decode(message)) => assert_eq!(message, "bad header"),
        Ok(_) => panic!("an error rendered"),
    }
}
