use rust_video_devices::nokhwa_camera::{CameraIndex, DeviceIndex};
use rust_video_devices::text::decimal_string;

#[test]
fn decimal_rendering_matches_to_string() {
    for n in [0u64, 7, 10, 42, 100, 65535, u32::MAX as u64, u64::MAX] {
        assert_eq!(decimal_string(n), n.to_string());
    }
}

#[test]
fn device_index_text() {
    assert_eq!(DeviceIndex::Index(12).as_string(), "12");
    assert_eq!(DeviceIndex::String("/dev/video0".to_string()).as_string(), "/dev/video0");
}

#[test]
fn camera_matches_its_device_index() {
    let numeric = CameraIndex("3".to_string());
    assert!(numeric == DeviceIndex::Index(3));
    assert!(numeric != DeviceIndex::Index(30));
    assert!(numeric == DeviceIndex::String("3".to_string()));
    assert!(CameraIndex("03".to_string()) != DeviceIndex::Index(3));
    let named = CameraIndex("usb-cam".to_string());
    assert!(named == DeviceIndex::String("usb-cam".to_string()));
    assert!(named != DeviceIndex::String("usb-cam2".to_string()));
}

#[test]
fn conversions_round_trip() {
    let camera = CameraIndex::from(DeviceIndex::Index(5));
    assert_eq!(camera, CameraIndex("5".to_string()));
    assert!(camera == DeviceIndex::Index(5));
    let device: DeviceIndex = CameraIndex("front".to_string()).into();
    assert!(matches!(&device, DeviceIndex::String(s) if s == "front"));
    assert!(CameraIndex("front".to_string()) == device);
}

#[test]
fn display_text_is_the_index_text() {
    assert_eq!(CameraIndex("0".to_string()).display_text(), "0");
}
