use rust_video_devices::frame::{CapturedFrame, FrameError};
use rust_video_devices::codec::DecodedImage;
use rust_video_devices::frame_processor::{process_decoded, process_frame_optimized, rgba_image, FrameProcessor};
use rust_video_devices::slint_renderer::{render_frame, BufferPool};

fn png_bytes(width: u32, height: u32, rgba: Vec<u8>) -> Vec<u8> {
    let image = image::RgbaImage::from_raw(width, height, rgba).unwrap();
    let mut out = std::io::Cursor::new(Vec::new());
    image.write_to(&mut out, image::ImageFormat::Png).unwrap();
    out.into_inner()
}

#[test]
fn bgr_frame_becomes_rgb_image() {
    let mut processor = FrameProcessor::new(2, 1);
    let frame = CapturedFrame { width: 2, height: 1, data: vec![1, 2, 3, 4, 5, 6] };
    let image = processor.process_frame(&frame).unwrap();
    assert_eq!(image.size().width, 2);
    assert_eq!(image.size().height, 1);
    assert_eq!(image.to_rgb8().unwrap().as_bytes(), &[3, 2, 1, 6, 5, 4]);
    assert_eq!(image.to_rgba8().unwrap().as_bytes(), &[3, 2, 1, 255, 6, 5, 4, 255]);
}

#[test]
fn bgra_frame_becomes_rgba_image() {
    let mut processor = FrameProcessor::new(1, 1);
    let frame = CapturedFrame { width: 1, height: 1, data: vec![1, 2, 3, 4] };
    let image = processor.process_frame(&frame).unwrap();
    assert!(image.to_rgb8().is_none());
    assert_eq!(image.to_rgba8().unwrap().as_bytes(), &[3, 2, 1, 4]);
}

#[test]
fn decoded_frame_of_the_right_size_keeps_its_pixels() {
    let rgba = vec![1, 2, 3, 4, 5, 6, 7, 8];
    let frame = CapturedFrame { width: 1, height: 2, data: png_bytes(1, 2, rgba.clone()) };
    let image = process_frame_optimized(&frame).unwrap();
    assert_eq!(image.to_rgba8().unwrap().as_bytes(), rgba.as_slice());
    assert_eq!(image.size().height, 2);
}

#[test]
fn decoded_frame_of_another_size_is_resampled() {
    let rgba = vec![200; 2 * 2 * 4];
    let frame = CapturedFrame { width: 4, height: 3, data: png_bytes(2, 2, rgba) };
    let image = process_frame_optimized(&frame).unwrap();
    assert_eq!(image.size().width, 4);
    assert_eq!(image.size().height, 3);
    assert_eq!(image.to_rgba8().unwrap().as_bytes().len(), 4 * 3 * 4);
}

#[test]
fn undecodable_frame_reports_the_decoder_error() {
    let frame = CapturedFrame { width: 2, height: 2, data: vec![0xff, 0xd8, 0x00] };
    match process_frame_optimized(&frame) {
        Err(FrameError::Decode(message)) => {
            assert!(message.starts_with("Failed to decode compressed image: "));
            assert!(message.len() > "Failed to decode compressed image: ".len());
        }
        Ok(_) => panic!("garbage decoded"),
    }
}

#[test]
fn rgba_image_holds_its_pixels() {
    let image = rgba_image(vec![9, 8, 7, 6], 1, 1);
    assert_eq!(image.to_rgba8().unwrap().as_bytes(), &[9, 8, 7, 6]);
}

#[test]
fn processor_and_renderer_show_the_same_pixels() {
    let frames = vec![
        CapturedFrame { width: 2, height: 1, data: vec![1, 2, 3, 4, 5, 6] },
        CapturedFrame { width: 1, height: 2, data: vec![1, 2, 3, 4, 5, 6, 7, 8] },
        CapturedFrame { width: 1, height: 1, data: png_bytes(1, 1, vec![5, 6, 7, 8]) },
    ];
    let mut pool = BufferPool::new();
    for frame in &frames {
        let image = process_frame_optimized(frame).unwrap();
        let buffer = render_frame(&mut pool, frame).unwrap();
        assert_eq!(image.to_rgba8().unwrap().as_bytes(), buffer.as_bytes());
    }
}

#[test]
fn jpeg_frame_is_decoded_at_its_size() {
    let image = image::RgbImage::from_pixel(8, 8, image::Rgb([10, 200, 30]));
    let mut out = std::io::Cursor::new(Vec::new());
    image.write_to(&mut out, image::ImageFormat::Jpeg).unwrap();
    let frame = CapturedFrame { width: 8, height: 8, data: out.into_inner() };
    let processed = process_frame_optimized(&frame).unwrap();
    let pixels = processed.to_rgba8().unwrap();
    assert_eq!(pixels.as_bytes().len(), 8 * 8 * 4);
    assert_eq!(pixels.as_bytes()[3], 255);
}

#[test]
fn processor_size_does_not_matter() {
    let frames = vec![
        CapturedFrame { width: 2, height: 1, data: vec![1, 2, 3, 4, 5, 6] },
        CapturedFrame { width: 1, height: 1, data: png_bytes(1, 1, vec![5, 6, 7, 8]) },
        CapturedFrame { width: 3, height: 3, data: vec![1, 2] },
    ];
    for frame in &frames {
        let a = FrameProcessor::new(0, 0).process_frame(frame);
        let b = FrameProcessor::new(u32::MAX, 7).process_frame(frame);
        match (a, b) {
            (Ok(x), Ok(y)) => {
                assert_eq!(x.size(), y.size());
                assert_eq!(x.to_rgba8().unwrap().as_bytes(), y.to_rgba8().unwrap().as_bytes());
            }
            (Err(x), Err(y)) => assert_eq!(x.message(), y.message()),
            _ => panic!("outcomes differ"),
        }
    }
}

#[test]
fn error_message_is_the_decoder_text_after_the_prefix() {
    let frame = CapturedFrame { width: 2, height: 2, data: vec![7, 7, 7] };
    let error = process_frame_optimized(&frame).err().unwrap();
    let FrameError::Decode(text) = &error;
    assert_eq!(&error.message(), text);
    assert!(error.message().starts_with("Failed to decode compressed image: "));
}

#[test]
fn decoded_image_is_processed_at_the_frame_size() {
    let same = DecodedImage { width: 2, height: 1, pixels: vec![1, 2, 3, 4, 5, 6, 7, 8] };
    let image = process_decoded(Ok(same), 2, 1).unwrap();
    assert_eq!(image.size().width, 2);
    assert_eq!(image.to_rgba8().unwrap().as_bytes(), &[1, 2, 3, 4, 5, 6, 7, 8]);
    let other = DecodedImage { width: 1, height: 1, pixels: vec![9, 9, 9, 255] };
    let image = process_decoded(Ok(other), 3, 2).unwrap();
    assert_eq!((image.size().width, image.size().height), (3, 2));
    assert_eq!(image.to_rgba8().unwrap().as_bytes().len(), 24);
    match process_decoded(Err(String::from("truncated")), 3, 2) {
        Err(FrameError::Decode(message)) => {
            assert_eq!(message, "Failed to decode compressed image: truncated")
        }
        Ok(_) => panic!("an error processed"),
    }
}
