use ironwatch::communication::{MonitorEvent, MonitoringStatus, ShutdownCoordinator, StatusCache};

#[test]
fn test_shutdown_coordinator() {
    let mut coordinator = ShutdownCoordinator::new();
    assert!(!coordinator.is_shutdown_signaled());

    coordinator.signal_shutdown();
    assert!(coordinator.is_shutdown_signaled());
}

#[test]
fn status_cache_mirrors_events() {
    let mut cache = StatusCache::new();
    assert_eq!(cache.get_status(), MonitoringStatus::Stopped);

    let st = cache.apply_event(&MonitorEvent::MonitoringStarted);
    assert_eq!(st, Some(MonitoringStatus::Running));
    assert_eq!(cache.get_status(), MonitoringStatus::Running);

    let st = cache.apply_event(&MonitorEvent::PermissionError("denied".to_string()));
    assert_eq!(st, Some(MonitoringStatus::Error("Permission: denied".to_string())));

    let st = cache.apply_event(&MonitorEvent::UsbUnavailable("gone".to_string()));
    assert_eq!(st, Some(MonitoringStatus::Error("USB Unavailable: gone".to_string())));

    let st = cache.apply_event(&MonitorEvent::MonitoringError("boom".to_string()));
    assert_eq!(st, Some(MonitoringStatus::Error("boom".to_string())));

    let st = cache.apply_event(&MonitorEvent::DevicesUpdated(vec![]));
    assert_eq!(st, None);
    assert_eq!(cache.get_status(), MonitoringStatus::Error("boom".to_string()));
    assert!(cache.get_devices().is_empty());

    let st = cache.apply_event(&MonitorEvent::MonitoringStopped);
    assert_eq!(st, Some(MonitoringStatus::Stopped));
}
