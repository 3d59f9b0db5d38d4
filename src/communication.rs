use vstd::prelude::*;
use vstd::string::StringExecFns;
use crate::device::{UsbDeviceChange, UsbDeviceInfo};

verus! {

/// Requests from consumers to the monitoring service.
#[derive(Debug, Clone)]
pub enum MonitorCommand {
    StartMonitoring,
    StopMonitoring,
    RefreshDevices,
    SetFilter(Option<String>),
    /// New polling period, in milliseconds.
    SetPollingInterval(u64),
    Shutdown,
}

/// Notifications from the monitoring service to consumers.
#[derive(Debug)]
pub enum MonitorEvent {
    DevicesLoaded(Vec<UsbDeviceInfo>),
    DevicesUpdated(Vec<UsbDeviceInfo>),
    DeviceChanged(UsbDeviceChange),
    DevicesChanged(Vec<UsbDeviceChange>),
    MonitoringStarted,
    MonitoringStopped,
    MonitoringError(String),
    PermissionError(String),
    UsbUnavailable(String),
}

/// The authoritative monitoring status that consumers read.
#[derive(Debug)]
pub enum MonitoringStatus {
    Stopped,
    Starting,
    Running,
    Stopping,
    Error(String),
}

impl Clone for MonitoringStatus {
    fn clone(&self) -> (r: Self)
        ensures
            r == *self,
    {
        match self {
            MonitoringStatus::Stopped => MonitoringStatus::Stopped,
            MonitoringStatus::Starting => MonitoringStatus::Starting,
            MonitoringStatus::Running => MonitoringStatus::Running,
            MonitoringStatus::Stopping => MonitoringStatus::Stopping,
            MonitoringStatus::Error(s) => MonitoringStatus::Error(s.clone()),
        }
    }
}

/// Status and device list equal as the consumer sees them.
pub open spec fn same_status(a: MonitoringStatus, b: MonitoringStatus) -> bool {
    match (a, b) {
        (MonitoringStatus::Error(x), MonitoringStatus::Error(y)) => x@ == y@,
        (MonitoringStatus::Error(_), _) => false,
        (_, MonitoringStatus::Error(_)) => false,
        _ => a == b,
    }
}

impl PartialEq for MonitoringStatus {
    fn eq(&self, other: &MonitoringStatus) -> (r: bool) {
        match (self, other) {
            (MonitoringStatus::Stopped, MonitoringStatus::Stopped) => true,
            (MonitoringStatus::Starting, MonitoringStatus::Starting) => true,
            (MonitoringStatus::Running, MonitoringStatus::Running) => true,
            (MonitoringStatus::Stopping, MonitoringStatus::Stopping) => true,
            (MonitoringStatus::Error(x), MonitoringStatus::Error(y)) => x.eq(y),
            _ => false,
        }
    }
}

impl vstd::std_specs::cmp::PartialEqSpecImpl for MonitoringStatus {
    open spec fn obeys_eq_spec() -> bool {
        true
    }

    open spec fn eq_spec(&self, other: &MonitoringStatus) -> bool {
        same_status(*self, *other)
    }
}

/// The text an error status carries for an event, if the event sets one.
pub open spec fn error_text(event: MonitorEvent) -> Option<Seq<char>> {
    match event {
        MonitorEvent::MonitoringError(m) => Some(m@),
        MonitorEvent::PermissionError(m) => Some("Permission: "@ + m@),
        MonitorEvent::UsbUnavailable(m) => Some("USB Unavailable: "@ + m@),
        _ => None,
    }
}

/// The status an event sets, if any: Running on start, Stopped on stop, an
/// error status (see `error_text`) on the three error events.
pub open spec fn status_set_by(event: MonitorEvent, st: MonitoringStatus) -> bool {
    match event {
        MonitorEvent::MonitoringStarted => st is Running,
        MonitorEvent::MonitoringStopped => st is Stopped,
        _ => match error_text(event) {
            Some(t) => st matches MonitoringStatus::Error(s) && s@ == t,
            None => false,
        },
    }
}

/// The event changes the cached status.
pub open spec fn sets_status(event: MonitorEvent) -> bool {
    event is MonitoringStarted || event is MonitoringStopped || error_text(event) is Some
}

/// The "last known" status and device list that readers poll.
#[derive(Debug)]
pub struct StatusCache {
    pub status: MonitoringStatus,
    pub devices: Vec<UsbDeviceInfo>,
}

fn prefixed(prefix: &str, msg: &String) -> (r: String)
    ensures
        r@ == prefix@ + msg@,
{
    let mut s = String::from_str(prefix);
    s.append(msg.as_str());
    s
}

fn clone_devices(v: &Vec<UsbDeviceInfo>) -> (r: Vec<UsbDeviceInfo>)
    ensures
        r@ == v@,
{
    let mut out: Vec<UsbDeviceInfo> = Vec::new();
    let mut i: usize = 0;
    while i < v.len()
        invariant
            i <= v.len(),
            out@ == v@.subrange(0, i as int),
        decreases v.len() - i,
    {
        out.push(v[i].clone());
        i = i + 1;
        assert(out@ =~= v@.subrange(0, i as int));
    }
    assert(out@ =~= v@);
    out
}

impl StatusCache {
    /// Stopped, with no devices.
    pub fn new() -> (r: Self)
        ensures
            r.status is Stopped,
            r.devices@.len() == 0,
    {
        StatusCache { status: MonitoringStatus::Stopped, devices: Vec::new() }
    }

    /// Mirrors one outgoing event: a device-list event replaces the cached
    /// list, a start/stop/error event replaces the cached status and returns
    /// the new status for broadcast. Other events change nothing.
    pub fn apply_event(&mut self, event: &MonitorEvent) -> (r: Option<MonitoringStatus>)
        ensures
            sets_status(*event) ==> r is Some,
            r matches Some(st) ==> status_set_by(*event, st) && final(self).status == st,
            !sets_status(*event) ==> r is None && final(self).status == old(self).status,
            event matches MonitorEvent::DevicesLoaded(ds) ==> final(self).devices@ == ds@,
            event matches MonitorEvent::DevicesUpdated(ds) ==> final(self).devices@ == ds@,
            !(event is DevicesLoaded || event is DevicesUpdated) ==> final(self).devices
                == old(self).devices,
    {
        let next = match event {
            MonitorEvent::DevicesLoaded(ds) => {
                self.devices = clone_devices(ds);
                None
            },
            MonitorEvent::DevicesUpdated(ds) => {
                self.devices = clone_devices(ds);
                None
            },
            MonitorEvent::MonitoringStarted => Some(MonitoringStatus::Running),
            MonitorEvent::MonitoringStopped => Some(MonitoringStatus::Stopped),
            MonitorEvent::MonitoringError(m) => Some(MonitoringStatus::Error(m.clone())),
            MonitorEvent::PermissionError(m) => Some(
                MonitoringStatus::Error(prefixed("Permission: ", m)),
            ),
            MonitorEvent::UsbUnavailable(m) => Some(
                MonitoringStatus::Error(prefixed("USB Unavailable: ", m)),
            ),
            _ => None,
        };
        match next {
            Some(st) => {
                self.status = st.clone();
                Some(st)
            },
            None => None,
        }
    }

    pub fn get_status(&self) -> (r: MonitoringStatus)
        ensures
            r == self.status,
    {
        self.status.clone()
    }

    pub fn get_devices(&self) -> (r: Vec<UsbDeviceInfo>)
        ensures
            r@ == self.devices@,
    {
        clone_devices(&self.devices)
    }
}

/// Cooperative shutdown flag of the monitoring service.
#[derive(Debug)]
pub struct ShutdownCoordinator {
    shutdown_flag: bool,
}

impl ShutdownCoordinator {
    pub closed spec fn signaled(&self) -> bool {
        self.shutdown_flag
    }

    pub fn new() -> (r: Self)
        ensures
            !r.signaled(),
    {
        ShutdownCoordinator { shutdown_flag: false }
    }

    pub fn signal_shutdown(&mut self)
        ensures
            final(self).signaled(),
    {
        self.shutdown_flag = true;
    }

    /// Reads the flag through a shared reference.
    pub fn is_flag_set(&self) -> (r: bool)
        ensures
            r == self.signaled(),
    {
        self.shutdown_flag
    }

    pub fn is_shutdown_signaled(&mut self) -> (r: bool)
        ensures
            r == old(self).signaled(),
            final(self).signaled() == old(self).signaled(),
    {
        self.shutdown_flag
    }
}

} // verus!
