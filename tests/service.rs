use ironwatch::communication::{MonitorCommand, MonitorEvent};
use ironwatch::config::DeviceRulesConfig;
use ironwatch::device::{ConnectionStatus, UsbDeviceChange, UsbDeviceInfo};
use ironwatch::service::{
    startup_decision, MonitoringService, ScanError, ScanPurpose, ServiceAction, ServicePhase,
    StartupDecision, UsbInitError,
};

fn dev(vendor_id: u16, addr: u8, product: &str) -> UsbDeviceInfo {
    UsbDeviceInfo {
        bus_number: 1,
        device_address: addr,
        vendor_id,
        product_id: 1,
        device_version: 0,
        manufacturer: None,
        product: Some(product.to_string()),
        serial_number: None,
        device_class: 0,
        device_subclass: 0,
        device_protocol: 0,
        max_packet_size: 8,
        num_configurations: 1,
        timestamp: 0,
        connection_status: ConnectionStatus::Connected,
    }
}

#[test]
fn start_then_shutdown_runs_then_exits() {
    let mut svc = MonitoringService::new(DeviceRulesConfig::new());
    assert_eq!(svc.phase(), ServicePhase::Idle);
    let acts = svc.begin();
    assert!(matches!(acts[0], ServiceAction::InitializeUsb));
    assert_eq!(svc.phase(), ServicePhase::Initializing);
    assert!(svc.on_usb_initialized(Ok(())).is_empty());
    assert_eq!(svc.phase(), ServicePhase::Stopped);

    let acts = svc.handle_command(MonitorCommand::StartMonitoring);
    assert_eq!(acts.len(), 2);
    assert!(matches!(acts[0], ServiceAction::Emit(MonitorEvent::MonitoringStarted)));
    assert!(matches!(acts[1], ServiceAction::ScanDevices(ScanPurpose::Refresh)));
    assert_eq!(svc.phase(), ServicePhase::Running);
    assert!(svc.should_poll());

    assert!(svc.handle_command(MonitorCommand::Shutdown).is_empty());
    assert_eq!(svc.phase(), ServicePhase::ShuttingDown);
    assert!(svc.is_finished());
    assert!(!svc.should_poll());
    let acts = svc.finish();
    assert!(matches!(acts[0], ServiceAction::Emit(MonitorEvent::MonitoringStopped)));
}

#[test]
fn start_then_shutdown_without_usb_degrades() {
    let mut svc = MonitoringService::new(DeviceRulesConfig::new());
    svc.begin();
    let acts = svc.on_usb_initialized(Err(UsbInitError::Failed("no context".to_string())));
    assert!(matches!(&acts[0], ServiceAction::Emit(MonitorEvent::MonitoringError(m)) if m == "no context"));
    assert_eq!(svc.phase(), ServicePhase::Idle);

    let acts = svc.handle_command(MonitorCommand::StartMonitoring);
    assert!(matches!(acts[0], ServiceAction::InitializeUsb));
    let acts = svc.on_usb_initialized(Err(UsbInitError::PermissionDenied("denied".to_string())));
    assert!(matches!(&acts[0], ServiceAction::Emit(MonitorEvent::PermissionError(m)) if m == "denied"));
    assert_eq!(svc.phase(), ServicePhase::Idle);

    let acts = svc.handle_command(MonitorCommand::RefreshDevices);
    assert!(matches!(&acts[0], ServiceAction::Emit(MonitorEvent::DevicesUpdated(v)) if v.is_empty()));

    svc.handle_command(MonitorCommand::Shutdown);
    assert_eq!(svc.phase(), ServicePhase::ShuttingDown);
    assert!(svc.finish().is_empty());
}

#[test]
fn start_waits_for_usb_then_starts() {
    let mut svc = MonitoringService::new(DeviceRulesConfig::new());
    let acts = svc.handle_command(MonitorCommand::StartMonitoring);
    assert!(matches!(acts[0], ServiceAction::InitializeUsb));
    let acts = svc.on_usb_initialized(Ok(()));
    assert_eq!(acts.len(), 2);
    assert_eq!(svc.phase(), ServicePhase::Running);
    assert!(svc.handle_command(MonitorCommand::StartMonitoring).is_empty());
    let acts = svc.handle_command(MonitorCommand::StopMonitoring);
    assert!(matches!(acts[0], ServiceAction::Emit(MonitorEvent::MonitoringStopped)));
    assert_eq!(svc.phase(), ServicePhase::Stopped);
    assert!(svc.handle_command(MonitorCommand::StopMonitoring).is_empty());
}

#[test]
fn poll_emits_one_event_per_change() {
    let mut svc = MonitoringService::new(DeviceRulesConfig::new());
    svc.begin();
    svc.on_usb_initialized(Ok(()));
    svc.handle_command(MonitorCommand::StartMonitoring);
    let acts = svc.on_scan(ScanPurpose::Poll, Ok(vec![dev(1, 1, "A"), dev(2, 2, "B")]), 10);
    assert_eq!(acts.len(), 2);
    for a in &acts {
        assert!(matches!(a, ServiceAction::Emit(MonitorEvent::DeviceChanged(UsbDeviceChange::Connected(_)))));
    }
    let acts = svc.on_scan(ScanPurpose::Poll, Ok(vec![dev(2, 2, "B")]), 20);
    assert_eq!(acts.len(), 1);
    assert!(matches!(&acts[0], ServiceAction::Emit(MonitorEvent::DeviceChanged(UsbDeviceChange::Disconnected(d))) if d.vendor_id == 1));
}

#[test]
fn scan_failures_are_reported_not_fatal() {
    let mut svc = MonitoringService::new(DeviceRulesConfig::new());
    svc.begin();
    svc.on_usb_initialized(Ok(()));
    let denied = ScanError { access_denied: true, message: "Access".to_string() };
    let acts = svc.on_scan(ScanPurpose::Poll, Err(denied), 1);
    assert!(matches!(&acts[0], ServiceAction::Emit(MonitorEvent::PermissionError(m)) if m == "Device monitoring error: Access"));
    let other = ScanError { access_denied: false, message: "io".to_string() };
    let acts = svc.on_scan(ScanPurpose::Poll, Err(other.clone()), 1);
    assert!(matches!(&acts[0], ServiceAction::Emit(MonitorEvent::MonitoringError(m)) if m == "Device monitoring error: io"));
    let acts = svc.on_scan(ScanPurpose::Refresh, Err(other), 1);
    assert!(matches!(&acts[0], ServiceAction::Emit(MonitorEvent::MonitoringError(m)) if m == "Failed to get device list: io"));
    assert_eq!(svc.phase(), ServicePhase::Stopped);
}

#[test]
fn set_filter_refreshes_with_filtered_list() {
    let mut svc = MonitoringService::new(DeviceRulesConfig::new());
    svc.begin();
    svc.on_usb_initialized(Ok(()));
    let acts = svc.handle_command(MonitorCommand::SetFilter(Some("logitech".to_string())));
    assert!(matches!(acts[0], ServiceAction::ScanDevices(ScanPurpose::Refresh)));
    let acts = svc.on_scan(
        ScanPurpose::Refresh,
        Ok(vec![dev(1, 1, "Logitech Mouse"), dev(2, 2, "Generic Keyboard")]),
        5,
    );
    assert_eq!(acts.len(), 2);
    assert!(matches!(&acts[0], ServiceAction::Emit(MonitorEvent::DeviceChanged(UsbDeviceChange::Connected(d))) if d.vendor_id == 1));
    match &acts[1] {
        ServiceAction::Emit(MonitorEvent::DevicesUpdated(v)) => {
            assert_eq!(v.len(), 1);
            assert_eq!(v[0].vendor_id, 1);
        }
        _ => panic!("expected a device list"),
    }
    // The refresh ran the diff: the same snapshot again reports no change.
    let acts = svc.on_scan(ScanPurpose::Refresh, Ok(vec![dev(1, 1, "Logitech Mouse")]), 6);
    assert_eq!(acts.len(), 1);
    assert!(matches!(&acts[0], ServiceAction::Emit(MonitorEvent::DevicesUpdated(v)) if v.len() == 1));
}

#[test]
fn set_filter_without_usb_publishes_empty_list() {
    let mut svc = MonitoringService::new(DeviceRulesConfig::new());
    let acts = svc.handle_command(MonitorCommand::SetFilter(Some("x".to_string())));
    assert_eq!(acts.len(), 1);
    assert!(matches!(&acts[0], ServiceAction::Emit(MonitorEvent::DevicesUpdated(v)) if v.is_empty()));
}

#[test]
fn polling_interval_updates() {
    let mut svc = MonitoringService::new(DeviceRulesConfig::new());
    assert_eq!(svc.polling_interval(), 500);
    assert!(svc.handle_command(MonitorCommand::SetPollingInterval(250)).is_empty());
    assert_eq!(svc.polling_interval(), 250);
}

#[test]
fn startup_retries_then_degrades() {
    assert_eq!(startup_decision(true, 0, 3), StartupDecision::Spawn);
    assert_eq!(startup_decision(false, 0, 3), StartupDecision::RetryLater);
    assert_eq!(startup_decision(false, 3, 3), StartupDecision::Spawn);
}
