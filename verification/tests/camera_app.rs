use rust_video_devices::camera_app::{
    camera_not_found_status, camera_started_status, camera_stopped_status, error_status,
    find_camera, found_cameras_status, frame_error_text, too_many_errors_status,
    CachedCameraQuery, CameraErrorState, StatusState, UiUpdateThrottler,
};
use rust_video_devices::nokhwa_camera::{CameraIndex, DeviceIndex};

fn text(status: StatusState) -> (u8, String) {
    match status {
        StatusState::Error(s) => (0, s),
        StatusState::Normal(s) => (1, s),
        StatusState::Success(s) => (2, s),
    }
}

#[test]
fn throttler_spaces_updates() {
    let mut throttler = UiUpdateThrottler::new(33);
    assert!(!throttler.should_update_at(32_999_999));
    assert!(throttler.should_update_at(33_000_000));
    assert!(!throttler.should_update_at(50_000_000));
    assert!(throttler.should_update_at(66_000_000));
    assert!(!throttler.should_update_at(10));
}

#[test]
fn zero_interval_lets_everything_through() {
    let mut throttler = UiUpdateThrottler::new(0);
    assert!(throttler.should_update_at(0));
    assert!(throttler.should_update_at(0));
    assert!(throttler.should_update());
}

#[test]
fn error_count_and_reset() {
    let mut state = CameraErrorState::new();
    assert_eq!(state.increment_error(), 0);
    assert_eq!(state.increment_error(), 1);
    assert_eq!(state.increment_error(), 2);
    state.reset_errors();
    assert_eq!(state.increment_error(), 0);
}

#[test]
fn errors_are_shown_at_most_every_two_seconds() {
    let mut state = CameraErrorState::new();
    assert!(!state.should_log_error_at(1_999));
    assert!(state.should_log_error_at(2_000));
    assert!(!state.should_log_error_at(3_999));
    assert!(state.should_log_error_at(4_000));
    assert!(!state.should_log_error_at(100));
    assert!(state.should_log_error());
}

#[test]
fn camera_stops_at_the_hundred_and_first_error() {
    let mut state = CameraErrorState::new();
    for n in 0..100usize {
        let action = state.handle_frame_error_at("boom", 0);
        assert_eq!(action.error_number, n);
        assert!(!action.stop_camera);
    }
    let action = state.handle_frame_error_at("boom", 5_000);
    assert_eq!(action.error_number, 100);
    assert!(action.stop_camera);
    assert_eq!(action.report.as_deref(), Some("Error (#100): boom"));
    assert_eq!(state.increment_error(), 0);
}

#[test]
fn good_frame_clears_errors() {
    let mut state = CameraErrorState::new();
    let mut throttler = UiUpdateThrottler::new(0);
    state.increment_error();
    state.increment_error();
    assert!(state.handle_frame_ok(&mut throttler));
    assert_eq!(state.increment_error(), 0);
    let action = state.handle_frame_error("late");
    assert_eq!(action.error_number, 1);
}

#[test]
fn status_lines() {
    assert_eq!(text(error_status("disk full")), (0, "Error: disk full".to_string()));
    assert_eq!(text(camera_not_found_status()), (0, "Error: Camera not found".to_string()));
    assert_eq!(text(found_cameras_status(0)), (1, "Found 0 cameras".to_string()));
    assert_eq!(text(found_cameras_status(12)), (1, "Found 12 cameras".to_string()));
    assert_eq!(text(camera_started_status()), (1, "Camera started successfully".to_string()));
    assert_eq!(text(camera_stopped_status()), (1, "Camera stopped".to_string()));
    assert_eq!(text(too_many_errors_status()), (0, "Too many errors, camera stopped".to_string()));
    assert_eq!(frame_error_text(7, "timeout"), "Error (#7): timeout");
}

#[test]
fn find_camera_takes_the_first_match() {
    let cameras = vec![
        DeviceIndex::String("a".to_string()),
        DeviceIndex::Index(1),
        DeviceIndex::String("1".to_string()),
    ];
    assert_eq!(find_camera(&cameras, &CameraIndex("1".to_string())), Some(1));
    assert_eq!(find_camera(&cameras, &CameraIndex("a".to_string())), Some(0));
    assert_eq!(find_camera(&cameras, &CameraIndex("b".to_string())), None);
    assert_eq!(find_camera(&[], &CameraIndex("a".to_string())), None);
}

#[test]
fn camera_cache_expires_after_five_seconds() {
    let mut cache: CachedCameraQuery<u32> = CachedCameraQuery::new();
    assert!(cache.needs_refresh_at(0));
    cache.store(vec![1, 2], 1_000);
    assert_eq!(cache.cameras(), &vec![1, 2]);
    assert!(!cache.needs_refresh_at(1_000));
    assert!(!cache.needs_refresh_at(5_000_000_999));
    assert!(cache.needs_refresh_at(5_000_001_000));
    let fresh: CachedCameraQuery<u32> = CachedCameraQuery::new();
    assert!(fresh.needs_refresh_at(fresh.now_nanos()));
}

#[test]
fn throttler_run_keeps_every_two_updates_apart() {
    let mut throttler = UiUpdateThrottler::new(33);
    let readings: Vec<u128> = (0..400u128).map(|i| i * 1_000_000).collect();
    let updates: Vec<u128> = readings.iter().copied().filter(|r| throttler.should_update_at(*r)).collect();
    assert_eq!(updates[0], 33_000_000);
    for pair in updates.windows(2) {
        assert!(pair[1] >= pair[0] + 33_000_000);
    }
    assert_eq!(updates.len(), 12);
}

#[test]
fn error_log_run_keeps_every_two_shown_errors_apart() {
    let mut state = CameraErrorState::new();
    let shown: Vec<u64> = (0..50u64).map(|i| i * 300).filter(|t| state.should_log_error_at(*t)).collect();
    assert_eq!(shown, vec![2_100, 4_200, 6_300, 8_400, 10_500, 12_600, 14_700]);
}
