use vstd::prelude::*;

verus! {

/// Connection state attached to a device snapshot or a history entry.
#[derive(Debug, Clone, Copy, PartialEq, Eq, Structural)]
pub enum ConnectionStatus {
    Connected,
    Disconnected,
    Reconnected,
    Blocked,
}

/// Identity of a device across polls: stable while it stays on one port.
/// A re-plug into another port yields another key.
#[derive(Debug, Clone, Copy, PartialEq, Eq, Structural, Hash)]
pub struct DeviceKey {
    pub vendor_id: u16,
    pub product_id: u16,
    pub bus_number: u8,
    pub device_address: u8,
}

/// One device as seen at one poll. `timestamp` is in milliseconds since the
/// Unix epoch.
#[derive(Debug)]
pub struct UsbDeviceInfo {
    pub bus_number: u8,
    pub device_address: u8,
    pub vendor_id: u16,
    pub product_id: u16,
    pub device_version: u16,
    pub manufacturer: Option<String>,
    pub product: Option<String>,
    pub serial_number: Option<String>,
    pub device_class: u8,
    pub device_subclass: u8,
    pub device_protocol: u8,
    pub max_packet_size: u8,
    pub num_configurations: u8,
    pub timestamp: i64,
    pub connection_status: ConnectionStatus,
}

pub fn clone_opt_string(s: &Option<String>) -> (r: Option<String>)
    ensures
        r == *s,
{
    match s {
        Some(v) => Some(v.clone()),
        None => None,
    }
}

impl Clone for UsbDeviceInfo {
    fn clone(&self) -> (r: Self)
        ensures
            r == *self,
    {
        UsbDeviceInfo {
            bus_number: self.bus_number,
            device_address: self.device_address,
            vendor_id: self.vendor_id,
            product_id: self.product_id,
            device_version: self.device_version,
            manufacturer: clone_opt_string(&self.manufacturer),
            product: clone_opt_string(&self.product),
            serial_number: clone_opt_string(&self.serial_number),
            device_class: self.device_class,
            device_subclass: self.device_subclass,
            device_protocol: self.device_protocol,
            max_packet_size: self.max_packet_size,
            num_configurations: self.num_configurations,
            timestamp: self.timestamp,
            connection_status: self.connection_status,
        }
    }
}

impl UsbDeviceInfo {
    /// The identity key `(vendor_id, product_id, bus_number, device_address)`.
    pub open spec fn key(&self) -> DeviceKey {
        DeviceKey {
            vendor_id: self.vendor_id,
            product_id: self.product_id,
            bus_number: self.bus_number,
            device_address: self.device_address,
        }
    }

    /// The same snapshot with another status and capture time.
    pub open spec fn restamped(&self, status: ConnectionStatus, timestamp: i64) -> Self {
        UsbDeviceInfo { connection_status: status, timestamp: timestamp, ..*self }
    }

    /// The same snapshot with another status.
    pub open spec fn with_status(&self, status: ConnectionStatus) -> Self {
        UsbDeviceInfo { connection_status: status, ..*self }
    }

    pub fn create_device_key(&self) -> (k: DeviceKey)
        ensures
            k == self.key(),
    {
        DeviceKey {
            vendor_id: self.vendor_id,
            product_id: self.product_id,
            bus_number: self.bus_number,
            device_address: self.device_address,
        }
    }

    pub fn set_status(&mut self, status: ConnectionStatus)
        ensures
            *final(self) == old(self).with_status(status),
    {
        self.connection_status = status;
    }
}

/// A transition found by one diff pass, carrying the snapshot it concerns.
#[derive(Debug)]
pub enum UsbDeviceChange {
    Connected(UsbDeviceInfo),
    Disconnected(UsbDeviceInfo),
    Reconnected(UsbDeviceInfo),
    Blocked(UsbDeviceInfo),
}

impl Clone for UsbDeviceChange {
    fn clone(&self) -> (r: Self)
        ensures
            r == *self,
    {
        match self {
            UsbDeviceChange::Connected(i) => UsbDeviceChange::Connected(i.clone()),
            UsbDeviceChange::Disconnected(i) => UsbDeviceChange::Disconnected(i.clone()),
            UsbDeviceChange::Reconnected(i) => UsbDeviceChange::Reconnected(i.clone()),
            UsbDeviceChange::Blocked(i) => UsbDeviceChange::Blocked(i.clone()),
        }
    }
}

impl UsbDeviceChange {
    pub open spec fn info(&self) -> UsbDeviceInfo {
        match self {
            UsbDeviceChange::Connected(i) => *i,
            UsbDeviceChange::Disconnected(i) => *i,
            UsbDeviceChange::Reconnected(i) => *i,
            UsbDeviceChange::Blocked(i) => *i,
        }
    }

    pub fn get_device_info(&self) -> (r: &UsbDeviceInfo)
        ensures
            *r == self.info(),
    {
        match self {
            UsbDeviceChange::Connected(info) => info,
            UsbDeviceChange::Disconnected(info) => info,
            UsbDeviceChange::Reconnected(info) => info,
            UsbDeviceChange::Blocked(info) => info,
        }
    }

    pub fn get_change_type(&self) -> (r: &'static str)
        ensures
            self is Connected ==> r@ == "CONNECTED"@,
            self is Disconnected ==> r@ == "DISCONNECTED"@,
            self is Reconnected ==> r@ == "RECONNECTED"@,
            self is Blocked ==> r@ == "BLOCKED"@,
    {
        match self {
            UsbDeviceChange::Connected(_) => "CONNECTED",
            UsbDeviceChange::Disconnected(_) => "DISCONNECTED",
            UsbDeviceChange::Reconnected(_) => "RECONNECTED",
            UsbDeviceChange::Blocked(_) => "BLOCKED",
        }
    }
}

/// Per-device counters. Times are milliseconds since the Unix epoch;
/// `connection_duration` is in milliseconds.
#[derive(Debug, Clone, Copy, PartialEq, Eq, Structural)]
pub struct DeviceStatistics {
    pub total_connections: u32,
    pub total_disconnections: u32,
    pub total_blocked: u32,
    pub first_seen: i64,
    pub last_seen: i64,
    pub connection_duration: u64,
    pub connection_count: u32,
}

#[derive(Debug, Clone, Copy, PartialEq, Eq, Structural)]
pub enum SecurityEventType {
    DeviceBlocked,
    DeviceAllowed,
    RuleViolation,
    SuspiciousActivity,
}

#[derive(Debug, Clone, Copy, PartialEq, Eq, Structural)]
pub enum SecurityAction {
    Blocked,
    Allowed,
    Warned,
    Logged,
}

/// One security decision on a device.
#[derive(Debug)]
pub struct SecurityEvent {
    pub timestamp: i64,
    pub event_type: SecurityEventType,
    pub device_info: UsbDeviceInfo,
    pub reason: String,
    pub action_taken: SecurityAction,
}

impl Clone for SecurityEvent {
    fn clone(&self) -> (r: Self)
        ensures
            r == *self,
    {
        SecurityEvent {
            timestamp: self.timestamp,
            event_type: self.event_type,
            device_info: self.device_info.clone(),
            reason: self.reason.clone(),
            action_taken: self.action_taken,
        }
    }
}

} // verus!
