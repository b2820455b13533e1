use netdisk_monitor::dashboard::OverlaySettings;

#[test]
fn overlay_defaults() {
    let settings = OverlaySettings::default();
    assert!(settings.show_network_down && settings.show_network_up);
    assert!(!settings.show_disk_read && !settings.show_session_duration);
    assert_eq!(settings.opacity, 72);
}

#[test]
fn overlay_opacity_is_clamped() {
    let faint = OverlaySettings { opacity: 0, ..OverlaySettings::default() };
    assert_eq!(faint.normalized().opacity, 35);
    let solid = OverlaySettings { opacity: 255, show_disk_read: true, ..OverlaySettings::default() };
    assert_eq!(solid.normalized().opacity, 92);
    assert!(solid.normalized().show_disk_read);
    let fine = OverlaySettings { opacity: 50, ..OverlaySettings::default() };
    assert_eq!(fine.normalized(), fine);
    assert_eq!(solid.normalized().normalized(), solid.normalized());
}
