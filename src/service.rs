use vstd::prelude::*;
use vstd::string::StringExecFns;
use crate::communication::{MonitorCommand, MonitorEvent, ShutdownCoordinator};
use crate::config::DeviceRulesConfig;
use crate::device::{UsbDeviceChange, UsbDeviceInfo};
use crate::diff::{diff_changes, keyed, newcomers, next_prev};
use crate::monitor::{filtered, logged_decisions, record_changes, UsbMonitor};

verus! {

/// Default polling period, in milliseconds.
pub const DEFAULT_POLL_INTERVAL_MS: u64 = 500;

/// Where the service stands.
#[derive(Debug, Clone, Copy, PartialEq, Eq, Structural)]
pub enum ServicePhase {
    /// No USB context yet.
    Idle,
    /// A USB context is being set up.
    Initializing,
    /// Polling.
    Running,
    /// Context held, polling paused.
    Stopped,
    /// Terminal: the loop exits.
    ShuttingDown,
}

/// Why a bus scan was asked for.
#[derive(Debug, Clone, Copy, PartialEq, Eq, Structural)]
pub enum ScanPurpose {
    /// An immediate cycle: diff, publish the changes and the (filtered)
    /// device list.
    Refresh,
    /// A timer tick: diff and publish the changes.
    Poll,
}

/// Work the service hands to the loop around it.
#[derive(Debug)]
pub enum ServiceAction {
    /// Deliver this event to consumers.
    Emit(MonitorEvent),
    /// Set up the USB context (with its permission check), then report with
    /// `on_usb_initialized`.
    InitializeUsb,
    /// Enumerate the bus, then report with `on_scan`.
    ScanDevices(ScanPurpose),
}

/// Why the USB context could not be set up.
#[derive(Debug, Clone)]
pub enum UsbInitError {
    PermissionDenied(String),
    Failed(String),
}

/// Why a bus enumeration failed.
#[derive(Debug, Clone)]
pub struct ScanError {
    pub access_denied: bool,
    pub message: String,
}

/// The monitoring service's decisions: it owns the diff state and reacts to
/// commands, timer ticks and the results of USB work done around it.
pub struct MonitoringService {
    usb_monitor: UsbMonitor,
    usb_ready: bool,
    init_pending: bool,
    start_after_init: bool,
    shutdown_coordinator: ShutdownCoordinator,
    polling_interval_ms: u64,
    device_filter: Option<String>,
    is_monitoring: bool,
}

/// `a` delivers MonitoringStarted.
pub open spec fn emits_started(a: ServiceAction) -> bool {
    a matches ServiceAction::Emit(MonitorEvent::MonitoringStarted)
}

/// `a` delivers MonitoringStopped.
pub open spec fn emits_stopped(a: ServiceAction) -> bool {
    a matches ServiceAction::Emit(MonitorEvent::MonitoringStopped)
}

/// `a` delivers a device list equal to `ds`.
pub open spec fn emits_devices(a: ServiceAction, ds: Seq<UsbDeviceInfo>) -> bool {
    a matches ServiceAction::Emit(MonitorEvent::DevicesUpdated(v)) && v@ == ds
}

/// `a` delivers a MonitoringError with this text.
pub open spec fn emits_error(a: ServiceAction, text: Seq<char>) -> bool {
    a matches ServiceAction::Emit(MonitorEvent::MonitoringError(s)) && s@ == text
}

/// `a` delivers a PermissionError with this text.
pub open spec fn emits_permission_error(a: ServiceAction, text: Seq<char>) -> bool {
    a matches ServiceAction::Emit(MonitorEvent::PermissionError(s)) && s@ == text
}

fn emit_text(prefix: &str, msg: &String) -> (r: ServiceAction)
    ensures
        emits_error(r, prefix@ + msg@),
{
    let mut s = String::from_str(prefix);
    s.append(msg.as_str());
    ServiceAction::Emit(MonitorEvent::MonitoringError(s))
}

impl MonitoringService {
    pub closed spec fn monitor(&self) -> UsbMonitor {
        self.usb_monitor
    }

    pub closed spec fn usb_ready(&self) -> bool {
        self.usb_ready
    }

    pub closed spec fn init_pending(&self) -> bool {
        self.init_pending
    }

    pub closed spec fn start_after_init(&self) -> bool {
        self.start_after_init
    }

    pub closed spec fn monitoring(&self) -> bool {
        self.is_monitoring
    }

    pub closed spec fn shutting_down(&self) -> bool {
        self.shutdown_coordinator.signaled()
    }

    pub closed spec fn interval(&self) -> u64 {
        self.polling_interval_ms
    }

    pub closed spec fn filter(&self) -> Option<String> {
        self.device_filter
    }

    pub open spec fn wf(&self) -> bool {
        &&& self.monitor().wf()
        &&& self.monitor().filter() == self.filter()
        &&& self.monitoring() ==> self.usb_ready()
    }

    /// The phase, from the service's state.
    pub open spec fn phase_of(&self) -> ServicePhase {
        if self.shutting_down() {
            ServicePhase::ShuttingDown
        } else if self.monitoring() {
            ServicePhase::Running
        } else if self.init_pending() {
            ServicePhase::Initializing
        } else if self.usb_ready() {
            ServicePhase::Stopped
        } else {
            ServicePhase::Idle
        }
    }

    /// Idle, not polling, 500 ms period, no filter, the given policy.
    pub fn new(rules: DeviceRulesConfig) -> (r: Self)
        ensures
            r.wf(),
            r.phase_of() == ServicePhase::Idle,
            !r.init_pending(),
            !r.start_after_init(),
            r.interval() == DEFAULT_POLL_INTERVAL_MS,
            r.filter() is None,
            r.monitor().prev().len() == 0,
            r.monitor().rules() == rules,
    {
        MonitoringService {
            usb_monitor: UsbMonitor::new(rules),
            usb_ready: false,
            init_pending: false,
            start_after_init: false,
            shutdown_coordinator: ShutdownCoordinator::new(),
            polling_interval_ms: DEFAULT_POLL_INTERVAL_MS,
            device_filter: None,
            is_monitoring: false,
        }
    }

    pub fn phase(&self) -> (r: ServicePhase)
        ensures
            r == self.phase_of(),
    {
        if self.shutdown_coordinator.is_flag_set() {
            ServicePhase::ShuttingDown
        } else if self.is_monitoring {
            ServicePhase::Running
        } else if self.init_pending {
            ServicePhase::Initializing
        } else if self.usb_ready {
            ServicePhase::Stopped
        } else {
            ServicePhase::Idle
        }
    }

    /// Current polling period in milliseconds.
    pub fn polling_interval(&self) -> (r: u64)
        ensures
            r == self.interval(),
    {
        self.polling_interval_ms
    }

    /// The timer branch is live only while monitoring.
    pub fn should_poll(&self) -> (r: bool)
        ensures
            r == (self.monitoring() && !self.shutting_down()),
    {
        self.is_monitoring && !self.shutdown_coordinator.is_flag_set()
    }

    /// The loop should exit.
    pub fn is_finished(&self) -> (r: bool)
        ensures
            r == self.shutting_down(),
    {
        self.shutdown_coordinator.is_flag_set()
    }

    /// The monitor, for read-only queries (statistics, logs, analytics).
    pub fn usb_monitor(&self) -> (r: &UsbMonitor)
        ensures
            *r == self.monitor(),
    {
        &self.usb_monitor
    }

    /// First step of the service: try to set up USB. If that fails the
    /// service keeps serving commands (degraded mode).
    pub fn begin(&mut self) -> (r: Vec<ServiceAction>)
        requires
            old(self).wf(),
        ensures
            final(self).wf(),
            r@ == seq![ServiceAction::InitializeUsb],
            final(self).init_pending(),
            final(self).start_after_init() == old(self).start_after_init(),
            final(self).usb_ready() == old(self).usb_ready(),
            final(self).monitoring() == old(self).monitoring(),
            final(self).shutting_down() == old(self).shutting_down(),
            final(self).monitor() == old(self).monitor(),
    {
        self.init_pending = true;
        let mut v: Vec<ServiceAction> = Vec::new();
        v.push(ServiceAction::InitializeUsb);
        v
    }

    fn start_now(&mut self) -> (r: Vec<ServiceAction>)
        requires
            old(self).wf(),
            old(self).usb_ready(),
        ensures
            final(self).wf(),
            final(self).monitoring(),
            !final(self).start_after_init(),
            r@.len() == 2,
            emits_started(r@[0]),
            r@[1] == ServiceAction::ScanDevices(ScanPurpose::Refresh),
            final(self).usb_ready(),
            final(self).init_pending() == old(self).init_pending(),
            final(self).shutting_down() == old(self).shutting_down(),
            final(self).monitor() == old(self).monitor(),
            final(self).interval() == old(self).interval(),
            final(self).filter() == old(self).filter(),
    {
        self.is_monitoring = true;
        self.start_after_init = false;
        let mut v: Vec<ServiceAction> = Vec::new();
        v.push(ServiceAction::Emit(MonitorEvent::MonitoringStarted));
        v.push(ServiceAction::ScanDevices(ScanPurpose::Refresh));
        v
    }

    /// Reacts to one command.
    /// - StartMonitoring: nothing if already monitoring; with USB ready,
    ///   starts (MonitoringStarted, then a refresh scan); else asks for USB
    ///   setup and starts once it succeeds.
    /// - StopMonitoring: if monitoring, stops and emits MonitoringStopped.
    /// - RefreshDevices: a refresh scan, or an empty device list without USB.
    /// - SetFilter: stores the filter and refreshes: a refresh scan, or an
    ///   empty device list without USB.
    /// - SetPollingInterval: stores the period.
    /// - Shutdown: signals shutdown; the loop exits after this step.
    pub fn handle_command(&mut self, command: MonitorCommand) -> (r: Vec<ServiceAction>)
        requires
            old(self).wf(),
        ensures
            final(self).wf(),
            final(self).monitor().prev() == old(self).monitor().prev(),
            final(self).monitor().ledger() == old(self).monitor().ledger(),
            final(self).monitor().events() == old(self).monitor().events(),
            final(self).monitor().rules() == old(self).monitor().rules(),
            final(self).usb_ready() == old(self).usb_ready(),
            !(command is Shutdown) ==> final(self).shutting_down() == old(self).shutting_down(),
            !(command is SetPollingInterval) ==> final(self).interval() == old(self).interval(),
            !(command is SetFilter) ==> final(self).filter() == old(self).filter(),
            command is StartMonitoring ==> {
                if old(self).monitoring() {
                    &&& r@.len() == 0
                    &&& final(self).monitoring()
                } else if old(self).usb_ready() {
                    &&& final(self).monitoring()
                    &&& r@.len() == 2
                    &&& emits_started(r@[0])
                    &&& r@[1] == ServiceAction::ScanDevices(ScanPurpose::Refresh)
                } else {
                    &&& !final(self).monitoring()
                    &&& final(self).init_pending()
                    &&& final(self).start_after_init()
                    &&& r@ == seq![ServiceAction::InitializeUsb]
                }
            },
            command is StopMonitoring ==> {
                &&& !final(self).monitoring()
                &&& old(self).monitoring() ==> r@.len() == 1 && emits_stopped(r@[0])
                &&& !old(self).monitoring() ==> r@.len() == 0
            },
            command is RefreshDevices ==> {
                &&& final(self).monitoring() == old(self).monitoring()
                &&& old(self).usb_ready() ==> r@ == seq![
                    ServiceAction::ScanDevices(ScanPurpose::Refresh),
                ]
                &&& !old(self).usb_ready() ==> r@.len() == 1 && emits_devices(r@[0], Seq::empty())
            },
            command matches MonitorCommand::SetFilter(f) ==> {
                &&& final(self).filter() == f
                &&& final(self).monitoring() == old(self).monitoring()
                &&& old(self).usb_ready() ==> r@ == seq![
                    ServiceAction::ScanDevices(ScanPurpose::Refresh),
                ]
                &&& !old(self).usb_ready() ==> r@.len() == 1 && emits_devices(r@[0], Seq::empty())
            },
            command matches MonitorCommand::SetPollingInterval(ms) ==> {
                &&& final(self).interval() == ms
                &&& final(self).monitoring() == old(self).monitoring()
                &&& r@.len() == 0
            },
            command is Shutdown ==> {
                &&& final(self).shutting_down()
                &&& final(self).monitoring() == old(self).monitoring()
                &&& r@.len() == 0
            },
    {
        match command {
            MonitorCommand::StartMonitoring => {
                if self.is_monitoring {
                    Vec::new()
                } else if self.usb_ready {
                    self.start_now()
                } else {
                    self.init_pending = true;
                    self.start_after_init = true;
                    let mut v: Vec<ServiceAction> = Vec::new();
                    v.push(ServiceAction::InitializeUsb);
                    v
                }
            },
            MonitorCommand::StopMonitoring => {
                let mut v: Vec<ServiceAction> = Vec::new();
                if self.is_monitoring {
                    self.is_monitoring = false;
                    v.push(ServiceAction::Emit(MonitorEvent::MonitoringStopped));
                }
                v
            },
            MonitorCommand::RefreshDevices => {
                let mut v: Vec<ServiceAction> = Vec::new();
                if self.usb_ready {
                    v.push(ServiceAction::ScanDevices(ScanPurpose::Refresh));
                } else {
                    v.push(ServiceAction::Emit(MonitorEvent::DevicesUpdated(Vec::new())));
                }
                v
            },
            MonitorCommand::SetFilter(filter) => {
                let copy = crate::device::clone_opt_string(&filter);
                self.device_filter = filter;
                self.usb_monitor.set_filter(copy);
                let mut v: Vec<ServiceAction> = Vec::new();
                if self.usb_ready {
                    v.push(ServiceAction::ScanDevices(ScanPurpose::Refresh));
                } else {
                    v.push(ServiceAction::Emit(MonitorEvent::DevicesUpdated(Vec::new())));
                }
                v
            },
            MonitorCommand::SetPollingInterval(ms) => {
                self.polling_interval_ms = ms;
                Vec::new()
            },
            MonitorCommand::Shutdown => {
                self.shutdown_coordinator.signal_shutdown();
                Vec::new()
            },
        }
    }

    /// Reacts to the outcome of USB setup. Success makes USB ready and, if a
    /// start was waiting on it, starts monitoring. A permission failure is
    /// surfaced as a PermissionError event, any other as a MonitoringError;
    /// the service stays up either way.
    pub fn on_usb_initialized(&mut self, result: Result<(), UsbInitError>) -> (r: Vec<ServiceAction>)
        requires
            old(self).wf(),
        ensures
            final(self).wf(),
            !final(self).init_pending(),
            !final(self).start_after_init(),
            final(self).shutting_down() == old(self).shutting_down(),
            final(self).monitor() == old(self).monitor(),
            result is Ok ==> final(self).usb_ready(),
            result is Ok && old(self).start_after_init() && !old(self).monitoring() ==> {
                &&& final(self).monitoring()
                &&& r@.len() == 2
                &&& emits_started(r@[0])
                &&& r@[1] == ServiceAction::ScanDevices(ScanPurpose::Refresh)
            },
            result is Ok && !(old(self).start_after_init() && !old(self).monitoring()) ==> r@.len()
                == 0 && final(self).monitoring() == old(self).monitoring(),
            result is Err ==> {
                &&& final(self).usb_ready() == old(self).usb_ready()
                &&& final(self).monitoring() == old(self).monitoring()
                &&& r@.len() == 1
            },
            match result {
                Err(UsbInitError::PermissionDenied(m)) => emits_permission_error(r@[0], m@),
                Err(UsbInitError::Failed(m)) => emits_error(r@[0], m@),
                Ok(_) => true,
            },
    {
        self.init_pending = false;
        match result {
            Ok(()) => {
                self.usb_ready = true;
                if self.start_after_init && !self.is_monitoring {
                    self.start_now()
                } else {
                    self.start_after_init = false;
                    Vec::new()
                }
            },
            Err(e) => {
                self.start_after_init = false;
                let mut v: Vec<ServiceAction> = Vec::new();
                match e {
                    UsbInitError::PermissionDenied(m) => {
                        v.push(ServiceAction::Emit(MonitorEvent::PermissionError(m)));
                    },
                    UsbInitError::Failed(m) => {
                        v.push(ServiceAction::Emit(MonitorEvent::MonitoringError(m)));
                    },
                }
                v
            },
        }
    }

    /// Reacts to a finished bus enumeration at time `now`. An empty batch
    /// emits nothing, changes go out in poll order, and a failed scan is
    /// reported while the service keeps running.
    /// - Either purpose, on success: runs the diff pass over the devices that
    ///   pass the filter and emits one DeviceChanged per change, in order.
    /// - Refresh, on success: then also publishes the filtered device list.
    /// - Refresh, on failure: a MonitoringError.
    /// - Poll, on failure: a PermissionError when access was denied and a
    ///   MonitoringError otherwise.
    pub fn on_scan(
        &mut self,
        purpose: ScanPurpose,
        result: Result<Vec<UsbDeviceInfo>, ScanError>,
        now: i64,
    ) -> (r: Vec<ServiceAction>)
        requires
            old(self).wf(),
        ensures
            final(self).wf(),
            final(self).usb_ready() == old(self).usb_ready(),
            final(self).monitoring() == old(self).monitoring(),
            final(self).shutting_down() == old(self).shutting_down(),
            final(self).filter() == old(self).filter(),
            final(self).interval() == old(self).interval(),
            final(self).monitor().rules() == old(self).monitor().rules(),
            result is Err ==> final(self).monitor() == old(self).monitor(),
            match result {
                Ok(devs) => {
                    let m0 = old(self).monitor();
                    let cur = filtered(m0.filter(), devs@);
                    let ch = diff_changes(m0.prev(), cur, m0.rules(), now);
                    &&& purpose == ScanPurpose::Poll ==> r@.len() == ch.len()
                    &&& purpose == ScanPurpose::Refresh ==> r@.len() == ch.len() + 1
                        && emits_devices(r@[ch.len() as int], cur)
                    &&& forall|i: int|
                        0 <= i < ch.len() ==> #[trigger] r@[i] == ServiceAction::Emit(
                            MonitorEvent::DeviceChanged(ch[i]),
                        )
                    &&& final(self).monitor().prev() == next_prev(m0.prev(), keyed(cur), now)
                    &&& final(self).monitor().ledger() == record_changes(m0.ledger(), ch, now)
                    &&& logged_decisions(
                        m0.events(),
                        final(self).monitor().events(),
                        newcomers(m0.prev(), keyed(cur)),
                        m0.rules(),
                        now,
                    )
                },
                Err(e) => {
                    &&& r@.len() == 1
                    &&& purpose == ScanPurpose::Refresh ==> emits_error(
                        r@[0],
                        "Failed to get device list: "@ + e.message@,
                    )
                    &&& purpose == ScanPurpose::Poll && e.access_denied ==> emits_permission_error(
                        r@[0],
                        "Device monitoring error: "@ + e.message@,
                    )
                    &&& purpose == ScanPurpose::Poll && !e.access_denied ==> emits_error(
                        r@[0],
                        "Device monitoring error: "@ + e.message@,
                    )
                },
            },
    {
        match result {
            Ok(devs) => {
                let shown = self.usb_monitor.get_connected_devices(&devs);
                let changes = self.usb_monitor.monitor_changes(&devs, now);
                let mut v: Vec<ServiceAction> = Vec::new();
                let mut i: usize = 0;
                while i < changes.len()
                    invariant
                        i <= changes.len(),
                        v@.len() == i,
                        forall|k: int|
                            0 <= k < i ==> #[trigger] v@[k] == ServiceAction::Emit(
                                MonitorEvent::DeviceChanged(changes@[k]),
                            ),
                    decreases changes.len() - i,
                {
                    let c: UsbDeviceChange = changes[i].clone();
                    v.push(ServiceAction::Emit(MonitorEvent::DeviceChanged(c)));
                    i = i + 1;
                }
                if purpose == ScanPurpose::Refresh {
                    v.push(ServiceAction::Emit(MonitorEvent::DevicesUpdated(shown)));
                }
                v
            },
            Err(e) => {
                let mut v: Vec<ServiceAction> = Vec::new();
                if purpose == ScanPurpose::Refresh {
                    v.push(emit_text("Failed to get device list: ", &e.message));
                } else {
                    let mut s = String::from_str("Device monitoring error: ");
                    s.append(e.message.as_str());
                    if e.access_denied {
                        v.push(ServiceAction::Emit(MonitorEvent::PermissionError(s)));
                    } else {
                        v.push(ServiceAction::Emit(MonitorEvent::MonitoringError(s)));
                    }
                }
                v
            },
        }
    }

    /// Last step before the loop exits: stops monitoring if it was on.
    pub fn finish(&mut self) -> (r: Vec<ServiceAction>)
        requires
            old(self).wf(),
        ensures
            final(self).wf(),
            !final(self).monitoring(),
            old(self).monitoring() ==> r@.len() == 1 && emits_stopped(r@[0]),
            !old(self).monitoring() ==> r@.len() == 0,
            final(self).shutting_down() == old(self).shutting_down(),
            final(self).monitor() == old(self).monitor(),
    {
        let mut v: Vec<ServiceAction> = Vec::new();
        if self.is_monitoring {
            self.is_monitoring = false;
            v.push(ServiceAction::Emit(MonitorEvent::MonitoringStopped));
        }
        v
    }

    /// The shutdown flag, for signalling from outside the command path.
    pub fn shutdown_coordinator(&mut self) -> (r: &mut ShutdownCoordinator)
        ensures
            r.signaled() == old(self).shutting_down(),
            final(self).shutting_down() == final(r).signaled(),
            final(self).monitor() == old(self).monitor(),
            final(self).monitoring() == old(self).monitoring(),
            final(self).usb_ready() == old(self).usb_ready(),
            final(self).init_pending() == old(self).init_pending(),
            final(self).start_after_init() == old(self).start_after_init(),
            final(self).filter() == old(self).filter(),
            final(self).interval() == old(self).interval(),
    {
        &mut self.shutdown_coordinator
    }
}

/// What to do after the startup permission probe.
#[derive(Debug, Clone, Copy, PartialEq, Eq, Structural)]
pub enum StartupDecision {
    /// Start the service (in degraded mode if the probe failed).
    Spawn,
    /// Probe again after a pause.
    RetryLater,
}

/// Start once the probe succeeds, or once `retries` has reached
/// `max_retries` (the service then runs degraded); otherwise retry.
pub fn startup_decision(probe_ok: bool, retries: usize, max_retries: usize) -> (r: StartupDecision)
    ensures
        r == (if probe_ok || retries >= max_retries {
            StartupDecision::Spawn
        } else {
            StartupDecision::RetryLater
        }),
{
    if probe_ok || retries >= max_retries {
        StartupDecision::Spawn
    } else {
        StartupDecision::RetryLater
    }
}

} // verus!
