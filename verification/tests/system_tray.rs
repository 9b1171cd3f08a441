use horizon_lattice::system_tray::{
    convert_event, is_reported, ActivationReason, SystemTrayIcon, TrayButton, TrayError,
    TrayEventKind,
};

#[test]
fn test_activation_reason_default() {
    let reason = ActivationReason::default();
    assert_eq!(reason, ActivationReason::Unknown);
}

#[test]
fn test_tray_error_display() {
    let err = TrayError::CreationFailed("test error".to_string());
    assert!(err.to_string().contains("test error"));

    let err = TrayError::IconError("icon error".to_string());
    assert!(err.to_string().contains("icon error"));

    let err = TrayError::NotVisible;
    assert!(err.to_string().contains("not visible"));

    let err = TrayError::PlatformError("platform error".to_string());
    assert!(err.to_string().contains("platform error"));
}

#[test]
fn test_system_tray_icon_new() {
    let tray = SystemTrayIcon::new();
    assert!(!tray.is_visible());
    assert!(!tray.has_icon());
    assert!(!tray.has_menu());
    assert!(tray.tooltip().is_empty());
}

#[test]
fn test_system_tray_icon_tooltip() {
    let mut tray = SystemTrayIcon::new();
    tray.set_tooltip("Test Tooltip");
    assert_eq!(tray.tooltip(), "Test Tooltip");
}

#[test]
fn test_system_tray_icon_with_tooltip() {
    let tray = SystemTrayIcon::with_tooltip("My App");
    assert_eq!(tray.tooltip(), "My App");
}

#[test]
fn test_system_tray_icon_hide_when_not_visible() {
    let mut tray = SystemTrayIcon::new();
    assert!(!tray.is_visible());
    tray.hide_icon();
    assert!(!tray.is_visible());
}

#[test]
fn test_system_tray_icon_default() {
    let tray = SystemTrayIcon::default();
    assert!(!tray.is_visible());
}

#[test]
fn test_system_tray_icon_debug() {
    let mut tray = SystemTrayIcon::new();
    tray.set_tooltip("Debug Test");
    let debug_str = format!("{:?}", tray);
    assert!(debug_str.contains("SystemTrayIcon"));
    assert!(debug_str.contains("Debug Test"));
}

#[test]
fn tray_error_messages_exact() {
    assert_eq!(
        TrayError::CreationFailed("x".to_string()).to_string(),
        "Failed to create tray icon: x"
    );
    assert_eq!(TrayError::IconError("bad".to_string()).to_string(), "Icon error: bad");
    assert_eq!(TrayError::NotVisible.to_string(), "Tray icon is not visible");
    assert_eq!(
        TrayError::PlatformError("p".to_string()).to_string(),
        "Platform error: p"
    );
}

#[test]
fn tray_events_map_to_activation() {
    assert_eq!(convert_event(TrayEventKind::Click, TrayButton::Left), ActivationReason::Click);
    assert_eq!(convert_event(TrayEventKind::Click, TrayButton::Right), ActivationReason::Context);
    assert_eq!(
        convert_event(TrayEventKind::DoubleClick, TrayButton::Left),
        ActivationReason::DoubleClick
    );
    assert_eq!(
        convert_event(TrayEventKind::DoubleClick, TrayButton::Middle),
        ActivationReason::MiddleClick
    );
    assert_eq!(convert_event(TrayEventKind::Hover, TrayButton::Left), ActivationReason::Unknown);
    assert!(!is_reported(ActivationReason::Unknown));
    assert!(is_reported(ActivationReason::Context));
}

#[test]
fn tray_show_records_outcome() {
    let mut tray = SystemTrayIcon::with_icon();
    assert!(tray.needs_creation());
    let failed = tray.show(Err(TrayError::CreationFailed("no tray".to_string())));
    assert!(failed.is_err());
    assert!(!tray.is_visible());
    assert!(tray.show(Ok(())).is_ok());
    assert!(tray.is_visible());
    assert!(!tray.needs_creation());
    // Already shown: success, whatever a creation would have said.
    assert!(tray.show(Err(TrayError::NotVisible)).is_ok());
    tray.hide_icon();
    assert!(!tray.is_visible());
    tray.set_icon();
    assert!(tray.needs_creation());
    tray.set_menu(true);
    assert!(tray.has_icon());
    assert!(tray.has_menu());
    tray.set_menu(false);
    assert!(!tray.has_menu());
}

#[test]
fn icon_and_menu_constructors() {
    let t = SystemTrayIcon::with_icon();
    assert!(t.has_icon() && !t.has_menu() && !t.is_visible());
    let t = SystemTrayIcon::with_menu();
    assert!(!t.has_icon() && t.has_menu() && !t.is_visible());
}

#[test]
fn show_without_icon_fails() {
    let mut tray = SystemTrayIcon::new();
    assert!(!tray.needs_creation());
    let r = tray.show(Ok(()));
    assert!(matches!(r, Err(TrayError::IconError(_))));
    assert!(!tray.is_visible());
}
