use rust_video_devices::windows_permissions::{
    elevation_from_token, elevation_message, permission_report, probe_status, shell_execute_succeeded, AccessAction,
    AccessEvent, AccessFlow, ComProbe, PermissionStatus, WindowsPermissionManager,
};

#[test]
fn test_permission_manager_creation() {
    let _manager = WindowsPermissionManager::new();
}

#[test]
fn probe_outcomes() {
    let failed_init = probe_status(ComProbe {
        init_error: Some("HRESULT(0x80004005)".to_string()),
        attributes_created: true,
        source_type_set: true,
    });
    assert!(matches!(failed_init, PermissionStatus::Error(ref m) if m == "Failed to initialize COM: HRESULT(0x80004005)"));
    let no_store = probe_status(ComProbe { init_error: None, attributes_created: false, source_type_set: true });
    assert!(matches!(no_store, PermissionStatus::Denied));
    let no_source = probe_status(ComProbe { init_error: None, attributes_created: true, source_type_set: false });
    assert!(matches!(no_source, PermissionStatus::Denied));
    let ok = probe_status(ComProbe { init_error: None, attributes_created: true, source_type_set: true });
    assert!(matches!(ok, PermissionStatus::Granted));
}

#[test]
fn granted_first_check_ends_the_search() {
    let mut flow = AccessFlow::new();
    assert!(matches!(flow.next(AccessEvent::Begin), AccessAction::CheckPermission));
    assert!(matches!(
        flow.next(AccessEvent::Checked(PermissionStatus::Granted)),
        AccessAction::Finish(PermissionStatus::Granted)
    ));
}

#[test]
fn denied_check_leads_to_a_request() {
    let mut flow = AccessFlow::new();
    flow.next(AccessEvent::Begin);
    assert!(matches!(
        flow.next(AccessEvent::Checked(PermissionStatus::Denied)),
        AccessAction::RequestPermission
    ));
    assert!(matches!(
        flow.next(AccessEvent::Requested(Ok(PermissionStatus::Granted))),
        AccessAction::Finish(PermissionStatus::Granted)
    ));
}

#[test]
fn failed_request_falls_back_to_a_last_check() {
    let mut flow = AccessFlow::new();
    flow.next(AccessEvent::Begin);
    flow.next(AccessEvent::Checked(PermissionStatus::Denied));
    assert!(matches!(
        flow.next(AccessEvent::Requested(Err("no shell".to_string()))),
        AccessAction::CheckPermission
    ));
    assert!(matches!(
        flow.next(AccessEvent::Checked(PermissionStatus::Denied)),
        AccessAction::Finish(PermissionStatus::Denied)
    ));
}

#[test]
fn error_check_goes_straight_to_the_last_check() {
    let mut flow = AccessFlow::new();
    flow.next(AccessEvent::Begin);
    assert!(matches!(
        flow.next(AccessEvent::Checked(PermissionStatus::Error("x".to_string()))),
        AccessAction::CheckPermission
    ));
    assert!(matches!(
        flow.next(AccessEvent::Checked(PermissionStatus::Granted)),
        AccessAction::Finish(PermissionStatus::Granted)
    ));
}

#[test]
fn reports_and_guidance() {
    let granted = permission_report(&PermissionStatus::Granted);
    assert_eq!(granted.message, "✅ Camera permissions are granted");
    assert!(!granted.show_guidance);
    let denied = permission_report(&PermissionStatus::Denied);
    assert_eq!(denied.message, "❌ Camera permissions are denied");
    assert!(denied.show_guidance);
    let unknown = permission_report(&PermissionStatus::Unknown);
    assert_eq!(unknown.message, "❓ Camera permission status is unknown");
    assert!(unknown.show_guidance);
    let error = permission_report(&PermissionStatus::Error("boom".to_string()));
    assert_eq!(error.message, "❌ Error checking camera permissions: boom");
    assert!(error.show_guidance);
}

#[test]
fn elevation() {
    assert!(elevation_from_token(true, true, 1));
    assert!(!elevation_from_token(true, true, 0));
    assert!(!elevation_from_token(true, false, 1));
    assert!(!elevation_from_token(false, true, 1));
    assert_eq!(elevation_message(true), "✅ Running with elevated privileges");
    assert_eq!(elevation_message(false), "ℹ️  Running with standard privileges");
}

#[test]
fn shell_execute_codes() {
    assert!(!shell_execute_succeeded(0));
    assert!(!shell_execute_succeeded(32));
    assert!(shell_execute_succeeded(33));
    assert!(!shell_execute_succeeded(-1));
}
