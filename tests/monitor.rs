use ironwatch::config::{DeviceRule, DeviceRulesConfig};
use ironwatch::device::{
    ConnectionStatus, DeviceKey, SecurityAction, SecurityEventType, UsbDeviceChange, UsbDeviceInfo,
};
use ironwatch::monitor::UsbMonitor;

fn dev(vendor_id: u16, product_id: u16, bus: u8, addr: u8, product: Option<&str>) -> UsbDeviceInfo {
    UsbDeviceInfo {
        bus_number: bus,
        device_address: addr,
        vendor_id,
        product_id,
        device_version: 0x0100,
        manufacturer: None,
        product: product.map(|p| p.to_string()),
        serial_number: None,
        device_class: 0,
        device_subclass: 0,
        device_protocol: 0,
        max_packet_size: 64,
        num_configurations: 1,
        timestamp: 1_000,
        connection_status: ConnectionStatus::Connected,
    }
}

fn key(vendor_id: u16, product_id: u16, bus: u8, addr: u8) -> DeviceKey {
    DeviceKey { vendor_id, product_id, bus_number: bus, device_address: addr }
}

fn count(changes: &[UsbDeviceChange]) -> (usize, usize, usize, usize) {
    let mut c = (0, 0, 0, 0);
    for ch in changes {
        match ch {
            UsbDeviceChange::Connected(_) => c.0 += 1,
            UsbDeviceChange::Disconnected(_) => c.1 += 1,
            UsbDeviceChange::Reconnected(_) => c.2 += 1,
            UsbDeviceChange::Blocked(_) => c.3 += 1,
        }
    }
    c
}

#[test]
fn disjoint_snapshots_disconnect_then_connect() {
    let mut m = UsbMonitor::new(DeviceRulesConfig::new());
    let s1 = vec![dev(1, 1, 1, 1, None), dev(2, 2, 1, 2, None)];
    let s2 = vec![dev(3, 3, 1, 3, None), dev(4, 4, 1, 4, None), dev(5, 5, 1, 5, None)];
    m.monitor_changes(&s1, 10);
    let changes = m.monitor_changes(&s2, 20);
    assert_eq!(changes.len(), 5);
    assert_eq!(count(&changes), (3, 2, 0, 0));
    assert!(matches!(changes[0], UsbDeviceChange::Disconnected(_)));
    assert!(matches!(changes[1], UsbDeviceChange::Disconnected(_)));
    let gone = changes[0].get_device_info();
    assert_eq!(gone.connection_status, ConnectionStatus::Disconnected);
    assert_eq!(gone.timestamp, 20);
}

#[test]
fn second_pass_over_same_snapshot_is_quiet() {
    let mut m = UsbMonitor::new(DeviceRulesConfig::new());
    let s = vec![dev(1, 1, 1, 1, None), dev(2, 2, 1, 2, None)];
    assert_eq!(m.monitor_changes(&s, 10).len(), 2);
    assert!(m.monitor_changes(&s, 11).is_empty());
}

#[test]
fn all_leave_then_return_as_reconnected() {
    let mut m = UsbMonitor::new(DeviceRulesConfig::new());
    let a = vec![dev(1, 1, 1, 1, None), dev(2, 2, 1, 2, None)];
    assert_eq!(count(&m.monitor_changes(&a, 10)), (2, 0, 0, 0));
    let gone = m.monitor_changes(&vec![], 20);
    assert_eq!(count(&gone), (0, 2, 0, 0));
    assert!(m.monitor_changes(&vec![], 25).is_empty());
    let back = m.monitor_changes(&a, 30);
    assert_eq!(count(&back), (0, 0, 2, 0));
    for c in &back {
        assert_eq!(c.get_device_info().connection_status, ConnectionStatus::Reconnected);
        assert_eq!(c.get_change_type(), "RECONNECTED");
    }
    let s = m.get_device_statistics(&key(1, 1, 1, 1)).unwrap();
    assert_eq!((s.total_connections, s.total_disconnections, s.connection_count), (2, 1, 1));
    assert!(m.get_security_events().len() == 2);
}

#[test]
fn one_device_flickers_while_other_stays() {
    let mut m = UsbMonitor::new(DeviceRulesConfig::new());
    let a = dev(1, 1, 1, 1, None);
    let b = dev(2, 2, 1, 2, None);
    m.monitor_changes(&vec![a.clone(), b.clone()], 10);
    let ch = m.monitor_changes(&vec![b.clone()], 20);
    assert_eq!(count(&ch), (0, 1, 0, 0));
    assert_eq!(ch[0].get_device_info().vendor_id, 1);
    assert_eq!(ch[0].get_device_info().timestamp, 20);
    let ch = m.monitor_changes(&vec![a, b], 30);
    assert_eq!(count(&ch), (0, 0, 1, 0));
    assert_eq!(ch[0].get_device_info().vendor_id, 1);
}

#[test]
fn snapshot_tag_does_not_make_a_present_device_reconnect() {
    let mut m = UsbMonitor::new(DeviceRulesConfig::new());
    let mut d = dev(7, 7, 2, 3, None);
    d.connection_status = ConnectionStatus::Disconnected;
    assert_eq!(count(&m.monitor_changes(&vec![d.clone()], 10)), (1, 0, 0, 0));
    assert!(m.monitor_changes(&vec![d], 20).is_empty());
}

#[test]
fn blacklisted_vendor_is_blocked_on_first_connection() {
    let mut rules = DeviceRulesConfig::new();
    let mut rule = DeviceRule::new(0);
    rule.vendor_id = Some(0x1234);
    rule.reason = "test".to_string();
    rules.blacklisted_devices.push(rule);
    let mut m = UsbMonitor::new(rules);
    let changes = m.monitor_changes(&vec![dev(0x1234, 0x0001, 1, 1, None)], 100);
    assert_eq!(changes.len(), 1);
    assert!(matches!(changes[0], UsbDeviceChange::Blocked(_)));
    assert_eq!(changes[0].get_change_type(), "BLOCKED");
    let stats = m.get_device_statistics(&key(0x1234, 0x0001, 1, 1)).unwrap();
    assert_eq!(stats.total_blocked, 1);
    assert_eq!(stats.connection_count, 0);
    let events = m.get_security_events();
    assert_eq!(events.len(), 1);
    assert_eq!(events[0].event_type, SecurityEventType::DeviceBlocked);
    assert_eq!(events[0].action_taken, SecurityAction::Blocked);
    assert_eq!(events[0].reason, "test");
    assert_eq!(events[0].timestamp, 100);
}

#[test]
fn unmatched_device_is_connected_with_one_allowed_event() {
    let mut rules = DeviceRulesConfig::new();
    let mut rule = DeviceRule::new(0);
    rule.vendor_id = Some(0x1234);
    rule.reason = "test".to_string();
    rules.blacklisted_devices.push(rule);
    let mut m = UsbMonitor::new(rules);
    let changes = m.monitor_changes(&vec![dev(0x9999, 0x0001, 1, 1, None)], 100);
    assert_eq!(count(&changes), (1, 0, 0, 0));
    let events = m.get_security_events();
    assert_eq!(events.len(), 1);
    assert_eq!(events[0].event_type, SecurityEventType::DeviceAllowed);
    assert_eq!(events[0].reason, "Device passed security checks");
}

#[test]
fn whitelist_mode_blocks_unlisted_device_even_with_empty_blacklist() {
    let mut rules = DeviceRulesConfig::new();
    rules.whitelist_enabled = true;
    rules.blacklist_enabled = false;
    let mut m = UsbMonitor::new(rules);
    let changes = m.monitor_changes(&vec![dev(1, 2, 1, 1, Some("Pen"))], 5);
    assert_eq!(count(&changes), (0, 0, 0, 1));
    assert_eq!(m.get_security_events()[0].reason, "Device not in whitelist");
}

#[test]
fn whitelisted_device_still_faces_blacklist() {
    let mut rules = DeviceRulesConfig::new();
    rules.whitelist_enabled = true;
    let mut allow = DeviceRule::new(0);
    allow.vendor_id = Some(1);
    rules.whitelisted_devices.push(allow);
    let mut deny = DeviceRule::new(0);
    deny.product_name = Some("PEN".to_string());
    deny.reason = "pens are banned".to_string();
    rules.blacklisted_devices.push(deny);
    let (blocked, reason) = rules.should_block_device(&dev(1, 2, 1, 1, Some("Smart pen")));
    assert!(blocked);
    assert_eq!(reason.unwrap(), "pens are banned");
    let (blocked, reason) = rules.should_block_device(&dev(1, 2, 1, 1, Some("Mouse")));
    assert!(!blocked);
    assert!(reason.is_none());
}

#[test]
fn disabled_rule_does_not_block() {
    let mut rules = DeviceRulesConfig::new();
    let mut rule = DeviceRule::new(0);
    rule.vendor_id = Some(1);
    rule.enabled = false;
    rules.blacklisted_devices.push(rule);
    assert!(!rules.should_block_device(&dev(1, 1, 1, 1, None)).0);
}

#[test]
fn history_keeps_newest_thousand_entries() {
    let mut m = UsbMonitor::new(DeviceRulesConfig::new());
    let k = key(1, 1, 1, 1);
    for t in 0..1005i64 {
        m.update_device_statistics(&k, ConnectionStatus::Connected, t);
    }
    let h = m.get_connection_history();
    assert_eq!(h.len(), 1000);
    assert_eq!(h[0].timestamp, 5);
    assert_eq!(h[999].timestamp, 1004);
    assert_eq!(m.get_device_connection_history(&k).len(), 1000);
}

#[test]
fn statistics_stay_consistent_through_transitions() {
    let mut m = UsbMonitor::new(DeviceRulesConfig::new());
    let k = key(1, 1, 1, 1);
    let steps = [
        ConnectionStatus::Connected,
        ConnectionStatus::Disconnected,
        ConnectionStatus::Reconnected,
        ConnectionStatus::Reconnected,
        ConnectionStatus::Disconnected,
    ];
    for (t, st) in steps.iter().enumerate() {
        m.update_device_statistics(&k, *st, 1_000 + t as i64);
        let s = m.get_device_statistics(&k).unwrap();
        assert_eq!(s.total_connections - s.total_disconnections, s.connection_count);
    }
    let s = m.get_device_statistics(&k).unwrap();
    assert_eq!(s.total_connections, 3);
    assert_eq!(s.total_disconnections, 2);
    assert_eq!(s.connection_count, 1);
    assert_eq!(s.first_seen, 1_000);
    assert_eq!(s.last_seen, 1_004);
    assert_eq!(s.connection_duration, 4);
}

#[test]
fn disconnect_never_drives_count_below_zero() {
    let mut m = UsbMonitor::new(DeviceRulesConfig::new());
    let k = key(1, 1, 1, 1);
    m.update_device_statistics(&k, ConnectionStatus::Blocked, 1);
    m.update_device_statistics(&k, ConnectionStatus::Disconnected, 2);
    let s = m.get_device_statistics(&k).unwrap();
    assert_eq!(s.connection_count, 0);
    assert_eq!(s.total_disconnections, 1);
    assert_eq!(s.total_blocked, 1);
}

#[test]
fn filter_keeps_matching_product_only() {
    let mut m = UsbMonitor::new(DeviceRulesConfig::new());
    m.set_filter(Some("Logitech".to_string()));
    let devices = vec![
        dev(0x046d, 0xc077, 1, 1, Some("Logitech Mouse")),
        dev(0x1111, 0x2222, 1, 2, Some("Generic Keyboard")),
    ];
    let shown = m.get_connected_devices(&devices);
    assert_eq!(shown.len(), 1);
    assert_eq!(shown[0].product.as_deref(), Some("Logitech Mouse"));
}

#[test]
fn filter_is_case_insensitive_and_falls_back_to_manufacturer() {
    let mut m = UsbMonitor::new(DeviceRulesConfig::new());
    m.set_filter(Some("LOGI".to_string()));
    let mut by_maker = dev(1, 1, 1, 1, None);
    by_maker.manufacturer = Some("logitech".to_string());
    let mut other_maker = dev(2, 2, 1, 2, None);
    other_maker.manufacturer = Some("Acme".to_string());
    let nameless = dev(3, 3, 1, 3, None);
    let shown = m.get_connected_devices(&vec![by_maker, other_maker, nameless]);
    assert_eq!(shown.len(), 1);
    assert_eq!(shown[0].vendor_id, 1);
}

#[test]
fn seeding_records_initial_devices() {
    let mut m = UsbMonitor::new(DeviceRulesConfig::new());
    m.start_monitoring(&vec![dev(1, 1, 1, 1, None), dev(2, 2, 1, 2, None)], 50);
    assert_eq!(m.get_connection_history().len(), 2);
    assert_eq!(m.get_device_statistics(&key(1, 1, 1, 1)).unwrap().total_connections, 1);
    assert!(m.get_security_events().is_empty());
    assert!(m.monitor_changes(&vec![dev(1, 1, 1, 1, None), dev(2, 2, 1, 2, None)], 60).is_empty());
}

#[test]
fn analytics_counts_and_hourly_buckets() {
    let hour: i64 = 3_600_000;
    let now: i64 = 100 * hour;
    let mut m = UsbMonitor::new(DeviceRulesConfig::new());
    let mut a = dev(0x046d, 1, 1, 1, None);
    a.device_class = 3;
    let mut b = dev(0x046d, 2, 1, 2, None);
    b.device_class = 3;
    let mut c = dev(0x1234, 3, 1, 3, None);
    c.device_class = 9;
    m.monitor_changes(&vec![a, b, c], now - hour / 2);
    let an = m.get_device_analytics(now);
    assert_eq!(an.total_devices_seen, 3);
    assert_eq!(an.unique_devices, 3);
    assert_eq!(an.blocked_devices, 0);
    assert_eq!(an.security_violations, 3);
    assert_eq!(an.connection_frequency.len(), 24);
    assert_eq!(an.connection_frequency[0].0, now - 24 * hour);
    assert_eq!(an.connection_frequency[23], (now - hour, 3));
    assert_eq!(an.connection_frequency[22].1, 0);
    let mut classes = an.device_class_distribution.clone();
    classes.sort();
    assert_eq!(classes, vec![(3, 2), (9, 1)]);
    let mut vendors = an.vendor_distribution.clone();
    vendors.sort();
    assert_eq!(vendors, vec![(0x046d, 2), (0x1234, 1)]);
}

#[test]
fn security_check_without_logging() {
    let mut rules = DeviceRulesConfig::new();
    let mut rule = DeviceRule::new(0);
    rule.serial_number = Some("abc".to_string());
    rule.reason = "serial".to_string();
    rules.blacklisted_devices.push(rule);
    let m = UsbMonitor::new(rules);
    let mut d = dev(1, 1, 1, 1, None);
    d.serial_number = Some("xxABCxx".to_string());
    let (blocked, reason, action) = m.check_device_security_async(&d);
    assert!(blocked);
    assert_eq!(reason.unwrap(), "serial");
    assert_eq!(action, SecurityAction::Blocked);
    assert!(m.get_security_events().is_empty());
}

#[test]
fn change_type_labels() {
    let d = dev(1, 1, 1, 1, None);
    assert_eq!(UsbDeviceChange::Connected(d.clone()).get_change_type(), "CONNECTED");
    assert_eq!(UsbDeviceChange::Disconnected(d.clone()).get_change_type(), "DISCONNECTED");
    assert_eq!(UsbDeviceChange::Blocked(d).get_change_type(), "BLOCKED");
}
