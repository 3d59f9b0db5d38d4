use vstd::prelude::*;
use vstd::string::StringExecFns;
use crate::config::{block_reason, is_blocked, DeviceRulesConfig};
use crate::device::{
    ConnectionStatus, DeviceKey, DeviceStatistics, SecurityAction, SecurityEvent,
    SecurityEventType, UsbDeviceChange, UsbDeviceInfo,
};
use crate::diff::{
    arrival, arrivals, build_keyed, build_next_prev, diff_changes, next_prev, disconnects, distinct_keys, find, has_key, index_of_key,
    keyed, newcomers,
};
use crate::bounded_log::{bounded_push, push_all, BoundedLog, LOG_CAPACITY};
use crate::text::{contains_folded, contains_ignore_case};

verus! {

/// One entry of the connection history.
#[derive(Debug, Clone, Copy, PartialEq, Eq, Structural)]
pub struct HistoryEntry {
    pub timestamp: i64,
    pub key: DeviceKey,
    pub status: ConnectionStatus,
}

/// Statistics stored under a device key.
#[derive(Debug, Clone, Copy, PartialEq, Eq, Structural)]
pub struct StatsEntry {
    pub key: DeviceKey,
    pub stats: DeviceStatistics,
}

// ---- statistics model ----

pub open spec fn stats_has(s: Seq<StatsEntry>, k: DeviceKey) -> bool {
    exists|i: int| 0 <= i < s.len() && #[trigger] s[i].key == k
}

pub open spec fn stats_distinct(s: Seq<StatsEntry>) -> bool {
    forall|i: int, j: int| 0 <= i < s.len() && 0 <= j < s.len() && i != j ==> s[i].key != s[j].key
}

pub open spec fn stats_index(s: Seq<StatsEntry>, k: DeviceKey) -> int {
    choose|i: int| 0 <= i < s.len() && #[trigger] s[i].key == k
}

/// The statistics stored under `k`, if any.
pub open spec fn stats_find(s: Seq<StatsEntry>, k: DeviceKey) -> Option<DeviceStatistics> {
    if stats_has(s, k) {
        Some(s[stats_index(s, k)].stats)
    } else {
        None
    }
}

/// Stores `v` under `k`, replacing what was there.
pub open spec fn stats_put(s: Seq<StatsEntry>, k: DeviceKey, v: DeviceStatistics) -> Seq<StatsEntry> {
    if stats_has(s, k) {
        s.update(stats_index(s, k), StatsEntry { key: k, stats: v })
    } else {
        s.push(StatsEntry { key: k, stats: v })
    }
}

/// Statistics of a key seen for the first time at `now`.
pub open spec fn fresh_stats(now: i64) -> DeviceStatistics {
    DeviceStatistics {
        total_connections: 0,
        total_disconnections: 0,
        total_blocked: 0,
        first_seen: now,
        last_seen: now,
        connection_duration: 0,
        connection_count: 0,
    }
}

pub open spec fn sat_inc(x: u32) -> u32 {
    if x < u32::MAX {
        (x + 1) as u32
    } else {
        x
    }
}

/// The counters after one transition: connects and reconnects count a
/// connection, a disconnect counts and ends one (never below zero), a block
/// only counts the block. `last_seen` becomes `now`.
pub open spec fn bump(s: DeviceStatistics, status: ConnectionStatus, now: i64) -> DeviceStatistics {
    let t = DeviceStatistics { last_seen: now, ..s };
    match status {
        ConnectionStatus::Connected | ConnectionStatus::Reconnected => DeviceStatistics {
            total_connections: sat_inc(s.total_connections),
            connection_count: sat_inc(s.connection_count),
            ..t
        },
        ConnectionStatus::Disconnected => DeviceStatistics {
            total_disconnections: sat_inc(s.total_disconnections),
            connection_count: if s.connection_count > 0 {
                (s.connection_count - 1) as u32
            } else {
                0
            },
            ..t
        },
        ConnectionStatus::Blocked => DeviceStatistics { total_blocked: sat_inc(s.total_blocked), ..t },
    }
}

/// Time of the oldest Connected entry for `k` still in the history.
pub open spec fn earliest_connection(h: Seq<HistoryEntry>, k: DeviceKey) -> Option<i64>
    decreases h.len(),
{
    if h.len() == 0 {
        None
    } else if h[0].key == k && h[0].status == ConnectionStatus::Connected {
        Some(h[0].timestamp)
    } else {
        earliest_connection(h.drop_first(), k)
    }
}

/// Milliseconds from `t` to `now`, zero when `t` is later.
pub open spec fn elapsed(now: i64, t: i64) -> u64 {
    if now >= t {
        (now - t) as u64
    } else {
        0
    }
}

/// The statistics of `k` after recording `status` at `now`, given the
/// history as it stands after the new entry.
pub open spec fn recorded_stats(
    stats: Seq<StatsEntry>,
    history: Seq<HistoryEntry>,
    k: DeviceKey,
    status: ConnectionStatus,
    now: i64,
) -> DeviceStatistics {
    let base = match stats_find(stats, k) {
        Some(s) => s,
        None => fresh_stats(now),
    };
    let b = bump(base, status, now);
    match earliest_connection(history, k) {
        Some(t) => DeviceStatistics { connection_duration: elapsed(now, t), ..b },
        None => b,
    }
}

/// Statistics and connection history together.
pub struct Ledger {
    pub stats: Seq<StatsEntry>,
    pub history: Seq<HistoryEntry>,
}

/// Recording one transition: a history entry, then the key's statistics.
pub open spec fn record(l: Ledger, k: DeviceKey, status: ConnectionStatus, now: i64) -> Ledger {
    let h = bounded_push(l.history, HistoryEntry { timestamp: now, key: k, status }, LOG_CAPACITY as nat);
    Ledger { stats: stats_put(l.stats, k, recorded_stats(l.stats, h, k, status, now)), history: h }
}

/// The status a change records.
pub open spec fn change_status(c: UsbDeviceChange) -> ConnectionStatus {
    match c {
        UsbDeviceChange::Connected(_) => ConnectionStatus::Connected,
        UsbDeviceChange::Disconnected(_) => ConnectionStatus::Disconnected,
        UsbDeviceChange::Reconnected(_) => ConnectionStatus::Reconnected,
        UsbDeviceChange::Blocked(_) => ConnectionStatus::Blocked,
    }
}

/// Recording every change of a batch, in order.
pub open spec fn record_changes(l: Ledger, changes: Seq<UsbDeviceChange>, now: i64) -> Ledger
    decreases changes.len(),
{
    if changes.len() == 0 {
        l
    } else {
        let c = changes.last();
        record(record_changes(l, changes.drop_last(), now), c.info().key(), change_status(c), now)
    }
}

/// Connections minus disconnections is the live connection count.
pub open spec fn consistent(s: DeviceStatistics) -> bool {
    s.total_connections - s.total_disconnections == s.connection_count
}

/// Statistics consistency: recording a transition keeps
/// `total_connections - total_disconnections == connection_count` (and the
/// count never goes below zero), except for a disconnect recorded while no
/// connection is live (a blocked device leaving) and once the connection
/// total has reached the top of its range.
pub proof fn lemma_statistics_consistency(
    stats: Seq<StatsEntry>,
    history: Seq<HistoryEntry>,
    k: DeviceKey,
    status: ConnectionStatus,
    now: i64,
)
    requires
        stats_find(stats, k) matches Some(s) ==> consistent(s) && s.total_connections < u32::MAX
            && !(status == ConnectionStatus::Disconnected && s.connection_count == 0),
        stats_find(stats, k) is None ==> status != ConnectionStatus::Disconnected,
    ensures
        consistent(recorded_stats(stats, history, k, status, now)),
        recorded_stats(stats, history, k, status, now).connection_count >= 0,
{
}

// ---- security decisions ----

pub open spec fn allowed_reason() -> Seq<char> {
    "Device passed security checks"@
}

/// `e` records the policy decision on `d` at `now`.
pub open spec fn decision_event(e: SecurityEvent, rules: DeviceRulesConfig, d: UsbDeviceInfo, now: i64) -> bool {
    &&& e.timestamp == now
    &&& e.device_info == d
    &&& if is_blocked(rules, d) {
        &&& e.event_type == SecurityEventType::DeviceBlocked
        &&& e.action_taken == SecurityAction::Blocked
        &&& e.reason@ == block_reason(rules, d)
    } else {
        &&& e.event_type == SecurityEventType::DeviceAllowed
        &&& e.action_taken == SecurityAction::Allowed
        &&& e.reason@ == allowed_reason()
    }
}

// ---- name filter ----

/// A device passes the name filter: its product name (or, lacking one, its
/// manufacturer) contains the pattern, ignoring case.
pub open spec fn passes_filter(filter: Option<String>, d: UsbDeviceInfo) -> bool {
    match filter {
        None => true,
        Some(f) => match d.product {
            Some(p) => contains_folded(p@, f@),
            None => match d.manufacturer {
                Some(m) => contains_folded(m@, f@),
                None => false,
            },
        },
    }
}

pub open spec fn filtered(filter: Option<String>, s: Seq<UsbDeviceInfo>) -> Seq<UsbDeviceInfo> {
    s.filter(|d: UsbDeviceInfo| passes_filter(filter, d))
}

/// Without a name filter every enumerated device is kept, so the diff laws
/// apply to `monitor_changes` on the snapshot as given.
pub proof fn lemma_no_filter_keeps_all(s: Seq<UsbDeviceInfo>)
    ensures
        filtered(None, s) == s,
    decreases s.len(),
{
    reveal(Seq::filter);
    if s.len() > 0 {
        lemma_no_filter_keeps_all(s.drop_last());
        assert(s.drop_last().push(s.last()) =~= s);
    } else {
        assert(filtered(None, s) =~= s);
    }
}

fn passes_filter_exec(filter: &Option<String>, d: &UsbDeviceInfo) -> (r: bool)
    ensures
        r == passes_filter(*filter, *d),
{
    match filter {
        None => true,
        Some(f) => match &d.product {
            Some(p) => contains_ignore_case(p.as_str(), f.as_str()),
            None => match &d.manufacturer {
                Some(m) => contains_ignore_case(m.as_str(), f.as_str()),
                None => false,
            },
        },
    }
}

// ---- analytics model ----

/// Connected entries of the history with a timestamp in `[lo, hi)`.
pub open spec fn connections_between(h: Seq<HistoryEntry>, lo: int, hi: int) -> nat
    decreases h.len(),
{
    if h.len() == 0 {
        0
    } else {
        let e = h.last();
        connections_between(h.drop_last(), lo, hi) + if e.status == ConnectionStatus::Connected
            && lo <= e.timestamp && e.timestamp < hi {
            1nat
        } else {
            0nat
        }
    }
}

/// Devices of `s` with device class `c`.
pub open spec fn class_count(s: Seq<UsbDeviceInfo>, c: u8) -> nat
    decreases s.len(),
{
    if s.len() == 0 {
        0
    } else {
        class_count(s.drop_last(), c) + if s.last().device_class == c {
            1nat
        } else {
            0nat
        }
    }
}

/// Devices of `s` with vendor id `v`.
pub open spec fn vendor_count(s: Seq<UsbDeviceInfo>, v: u16) -> nat
    decreases s.len(),
{
    if s.len() == 0 {
        0
    } else {
        vendor_count(s.drop_last(), v) + if s.last().vendor_id == v {
            1nat
        } else {
            0nat
        }
    }
}

/// Start of hourly bucket `h` of the 24 hours before `now`.
pub open spec fn bucket_start(now: i64, h: int) -> int {
    now - 24 * HOUR_MILLIS + h * HOUR_MILLIS
}

pub open spec fn clamp_i64(x: int) -> i64 {
    if x < i64::MIN {
        i64::MIN
    } else if x > i64::MAX {
        i64::MAX
    } else {
        x as i64
    }
}

pub const HOUR_MILLIS: i64 = 3_600_000;

/// Summary of everything seen so far. Each distribution lists a value once.
#[derive(Debug)]
pub struct DeviceAnalytics {
    pub device_class_distribution: Vec<(u8, u32)>,
    pub vendor_distribution: Vec<(u16, u32)>,
    pub connection_frequency: Vec<(i64, u32)>,
    pub total_devices_seen: u32,
    pub unique_devices: u32,
    pub blocked_devices: u32,
    pub security_violations: u32,
}

/// The devices of the previous map (present or departed) among the keys
/// that have statistics.
pub open spec fn known_devices(stats: Seq<StatsEntry>, prev: Seq<UsbDeviceInfo>) -> Seq<UsbDeviceInfo>
    decreases stats.len(),
{
    if stats.len() == 0 {
        Seq::empty()
    } else {
        let rest = known_devices(stats.drop_last(), prev);
        match find(prev, stats.last().key) {
            Some(d) => rest.push(d),
            None => rest,
        }
    }
}

/// Sum of blocks over all keys, saturating.
pub open spec fn blocked_total(stats: Seq<StatsEntry>) -> u32
    decreases stats.len(),
{
    if stats.len() == 0 {
        0
    } else {
        let r = blocked_total(stats.drop_last()) + stats.last().stats.total_blocked;
        if r > u32::MAX {
            u32::MAX
        } else {
            r as u32
        }
    }
}

pub open spec fn sat_u32(n: nat) -> u32 {
    if n > u32::MAX {
        u32::MAX
    } else {
        n as u32
    }
}

// ---- the monitor ----

/// Diff state, policy, statistics and logs of the device monitor.
pub struct UsbMonitor {
    previous_devices: Vec<UsbDeviceInfo>,
    device_filter: Option<String>,
    device_statistics: Vec<StatsEntry>,
    connection_history: BoundedLog<HistoryEntry>,
    security_events: BoundedLog<SecurityEvent>,
    rules: DeviceRulesConfig,
}

impl UsbMonitor {
    /// The previous-snapshot map.
    pub closed spec fn prev(&self) -> Seq<UsbDeviceInfo> {
        self.previous_devices@
    }

    pub closed spec fn filter(&self) -> Option<String> {
        self.device_filter
    }

    pub closed spec fn stats(&self) -> Seq<StatsEntry> {
        self.device_statistics@
    }

    pub closed spec fn history(&self) -> Seq<HistoryEntry> {
        self.connection_history@
    }

    pub closed spec fn events(&self) -> Seq<SecurityEvent> {
        self.security_events@
    }

    pub closed spec fn rules(&self) -> DeviceRulesConfig {
        self.rules
    }

    pub open spec fn ledger(&self) -> Ledger {
        Ledger { stats: self.stats(), history: self.history() }
    }

    pub open spec fn wf(&self) -> bool {
        &&& distinct_keys(self.prev())
        &&& stats_distinct(self.stats())
        &&& self.history().len() <= LOG_CAPACITY
        &&& self.events().len() <= LOG_CAPACITY
    }

    /// A monitor with nothing seen yet, no filter, and the given policy.
    pub fn new(rules: DeviceRulesConfig) -> (r: Self)
        ensures
            r.wf(),
            r.prev().len() == 0,
            r.filter() is None,
            r.stats().len() == 0,
            r.history().len() == 0,
            r.events().len() == 0,
            r.rules() == rules,
    {
        UsbMonitor {
            previous_devices: Vec::new(),
            device_filter: None,
            device_statistics: Vec::new(),
            connection_history: BoundedLog::new(),
            security_events: BoundedLog::new(),
            rules,
        }
    }

    /// Replaces the security policy.
    pub fn set_rules(&mut self, rules: DeviceRulesConfig)
        requires
            old(self).wf(),
        ensures
            final(self).wf(),
            final(self).rules() == rules,
            final(self).prev() == old(self).prev(),
            final(self).filter() == old(self).filter(),
            final(self).ledger() == old(self).ledger(),
            final(self).events() == old(self).events(),
    {
        self.rules = rules;
    }

    pub fn get_rules(&self) -> (r: &DeviceRulesConfig)
        ensures
            *r == self.rules(),
    {
        &self.rules
    }

    /// Sets or clears the name filter.
    pub fn set_filter(&mut self, filter: Option<String>)
        requires
            old(self).wf(),
        ensures
            final(self).wf(),
            final(self).filter() == filter,
            final(self).prev() == old(self).prev(),
            final(self).rules() == old(self).rules(),
            final(self).ledger() == old(self).ledger(),
            final(self).events() == old(self).events(),
    {
        self.device_filter = filter;
    }

    pub fn get_device_statistics(&self, device_key: &DeviceKey) -> (r: Option<&DeviceStatistics>)
        requires
            self.wf(),
        ensures
            match r {
                Some(s) => stats_find(self.stats(), *device_key) == Some(*s),
                None => stats_find(self.stats(), *device_key) is None,
            },
    {
        match self.stats_position(device_key) {
            Some(i) => Some(&self.device_statistics[i].stats),
            None => None,
        }
    }

    pub fn get_security_events(&self) -> (r: &[SecurityEvent])
        ensures
            r@ == self.events(),
    {
        self.security_events.as_slice()
    }

    pub fn get_connection_history(&self) -> (r: &[HistoryEntry])
        ensures
            r@ == self.history(),
    {
        self.connection_history.as_slice()
    }

    /// Timestamps and statuses of the history entries of one device, oldest
    /// first.
    pub fn get_device_connection_history(&self, device_key: &DeviceKey) -> (r: Vec<(i64, ConnectionStatus)>)
        ensures
            r@ == self.history().filter(|e: HistoryEntry| e.key == *device_key).map_values(
                |e: HistoryEntry| (e.timestamp, e.status),
            ),
    {
        let h = self.connection_history.as_slice();
        let mut out: Vec<(i64, ConnectionStatus)> = Vec::new();
        let mut i: usize = 0;
        let ghost pred = |e: HistoryEntry| e.key == *device_key;
        proof {
            reveal(Seq::filter);
            assert(h@.subrange(0, 0).filter(pred) =~= Seq::<HistoryEntry>::empty());
        }
        let ghost f = |e: HistoryEntry| (e.timestamp, e.status);
        while i < h.len()
            invariant
                h@ == self.history(),
                i <= h.len(),
                pred == (|e: HistoryEntry| e.key == *device_key),
                f == (|e: HistoryEntry| (e.timestamp, e.status)),
                out@ == h@.subrange(0, i as int).filter(pred).map_values(f),
            decreases h.len() - i,
        {
            let e = h[i];
            let ghost prefix = h@.subrange(0, i + 1);
            let ghost before = h@.subrange(0, i as int).filter(pred);
            proof {
                reveal(Seq::filter);
                assert(prefix.drop_last() =~= h@.subrange(0, i as int));
                assert(prefix.last() == e);
                assert(prefix.filter(pred) == (if pred(e) {
                    before.push(e)
                } else {
                    before
                }));
            }
            if e.key == *device_key {
                out.push((e.timestamp, e.status));
                proof {
                    assert(before.push(e).map_values(f) =~= before.map_values(f).push(f(e)));
                }
            }
            i = i + 1;
            proof {
                assert(out@ =~= prefix.filter(pred).map_values(f));
            }
        }
        assert(h@.subrange(0, h.len() as int) =~= h@);
        out
    }

    fn stats_position(&self, k: &DeviceKey) -> (r: Option<usize>)
        requires
            stats_distinct(self.stats()),
        ensures
            match r {
                Some(i) => i < self.stats().len() && self.stats()[i as int].key == *k && stats_index(
                    self.stats(),
                    *k,
                ) == i && stats_has(self.stats(), *k),
                None => !stats_has(self.stats(), *k),
            },
    {
        let mut i: usize = 0;
        while i < self.device_statistics.len()
            invariant
                i <= self.device_statistics.len(),
                stats_distinct(self.device_statistics@),
                forall|j: int| 0 <= j < i ==> #[trigger] self.device_statistics@[j].key != *k,
            decreases self.device_statistics.len() - i,
        {
            if self.device_statistics[i].key == *k {
                proof {
                    let s = self.device_statistics@;
                    assert(s[i as int].key == *k);
                    let c = stats_index(s, *k);
                    assert(s[c].key == *k);
                }
                return Some(i);
            }
            i = i + 1;
        }
        None
    }

    fn earliest_connection_exec(&self, k: &DeviceKey) -> (r: Option<i64>)
        ensures
            r == earliest_connection(self.history(), *k),
    {
        let h = self.connection_history.as_slice();
        let mut i: usize = 0;
        assert(h@.subrange(0, h@.len() as int) =~= h@);
        while i < h.len()
            invariant
                h@ == self.history(),
                i <= h.len(),
                earliest_connection(h@, *k) == earliest_connection(
                    h@.subrange(i as int, h@.len() as int),
                    *k,
                ),
            decreases h.len() - i,
        {
            let ghost rest = h@.subrange(i as int, h@.len() as int);
            assert(rest[0] == h@[i as int]);
            if h[i].key == *k && h[i].status == ConnectionStatus::Connected {
                return Some(h[i].timestamp);
            }
            assert(rest.drop_first() =~= h@.subrange(i + 1, h@.len() as int));
            i = i + 1;
        }
        assert(h@.subrange(i as int, h@.len() as int) =~= Seq::<HistoryEntry>::empty());
        None
    }

    /// Records one transition of `device_key` at `now`: appends to the
    /// history and updates the key's statistics.
    pub fn update_device_statistics(&mut self, device_key: &DeviceKey, status: ConnectionStatus, now: i64)
        requires
            old(self).wf(),
        ensures
            final(self).wf(),
            final(self).ledger() == record(old(self).ledger(), *device_key, status, now),
            final(self).prev() == old(self).prev(),
            final(self).filter() == old(self).filter(),
            final(self).rules() == old(self).rules(),
            final(self).events() == old(self).events(),
    {
        let ghost old_stats = self.device_statistics@;
        self.connection_history.push(HistoryEntry { timestamp: now, key: *device_key, status });
        let pos = self.stats_position(device_key);
        let base = match pos {
            Some(i) => self.device_statistics[i].stats,
            None => DeviceStatistics {
                total_connections: 0,
                total_disconnections: 0,
                total_blocked: 0,
                first_seen: now,
                last_seen: now,
                connection_duration: 0,
                connection_count: 0,
            },
        };
        let mut s = base;
        s.last_seen = now;
        match status {
            ConnectionStatus::Connected | ConnectionStatus::Reconnected => {
                s.total_connections = s.total_connections.saturating_add(1);
                s.connection_count = s.connection_count.saturating_add(1);
            },
            ConnectionStatus::Disconnected => {
                s.total_disconnections = s.total_disconnections.saturating_add(1);
                if s.connection_count > 0 {
                    s.connection_count = s.connection_count - 1;
                }
            },
            ConnectionStatus::Blocked => {
                s.total_blocked = s.total_blocked.saturating_add(1);
            },
        }
        if let Some(t) = self.earliest_connection_exec(device_key) {
            s.connection_duration = if now >= t {
                (now as i128 - t as i128) as u64
            } else {
                0
            };
        }
        let entry = StatsEntry { key: *device_key, stats: s };
        match pos {
            Some(i) => {
                self.device_statistics.set(i, entry);
            },
            None => {
                self.device_statistics.push(entry);
            },
        }
        proof {
            let ns = self.device_statistics@;
            assert forall|i: int, j: int|
                0 <= i < ns.len() && 0 <= j < ns.len() && i != j implies ns[i].key != ns[j].key by {
                if pos is None {
                    if i == old_stats.len() as int {
                        assert(old_stats[j].key == ns[j].key);
                    } else if j == old_stats.len() as int {
                        assert(old_stats[i].key == ns[i].key);
                    }
                }
            }
        }
    }

    /// Applies the policy to a newly seen device and logs the decision.
    pub fn check_device_security(&mut self, device: &UsbDeviceInfo, now: i64) -> (r: (
        bool,
        Option<String>,
        SecurityAction,
    ))
        requires
            old(self).wf(),
        ensures
            final(self).wf(),
            r.0 == is_blocked(old(self).rules(), *device),
            r.1 is Some <==> r.0,
            r.1 matches Some(s) ==> s@ == block_reason(old(self).rules(), *device),
            r.2 == (if r.0 {
                SecurityAction::Blocked
            } else {
                SecurityAction::Allowed
            }),
            final(self).events().len() > 0,
            decision_event(final(self).events().last(), old(self).rules(), *device, now),
            final(self).events() == bounded_push(
                old(self).events(),
                final(self).events().last(),
                LOG_CAPACITY as nat,
            ),
            final(self).prev() == old(self).prev(),
            final(self).filter() == old(self).filter(),
            final(self).rules() == old(self).rules(),
            final(self).ledger() == old(self).ledger(),
    {
        let (should_block, reason) = self.rules.should_block_device(device);
        let ghost old_events = self.security_events@;
        if should_block {
            let text = match &reason {
                Some(s) => s.clone(),
                None => String::from_str("Unknown reason"),
            };
            let event = SecurityEvent {
                timestamp: now,
                event_type: SecurityEventType::DeviceBlocked,
                device_info: device.clone(),
                reason: text,
                action_taken: SecurityAction::Blocked,
            };
            let ghost e = event;
            self.security_events.push(event);
            assert(self.security_events@.last() == e);
            (true, reason, SecurityAction::Blocked)
        } else {
            let event = SecurityEvent {
                timestamp: now,
                event_type: SecurityEventType::DeviceAllowed,
                device_info: device.clone(),
                reason: String::from_str("Device passed security checks"),
                action_taken: SecurityAction::Allowed,
            };
            let ghost e = event;
            self.security_events.push(event);
            assert(self.security_events@.last() == e);
            (false, None, SecurityAction::Allowed)
        }
    }

    /// What the policy decides on a device, without logging it.
    pub fn check_device_security_async(&self, device: &UsbDeviceInfo) -> (r: (
        bool,
        Option<String>,
        SecurityAction,
    ))
        ensures
            r.0 == is_blocked(self.rules(), *device),
            r.0 ==> r.1 is Some && r.1->0@ == block_reason(self.rules(), *device),
            !r.0 ==> r.1 is None,
            r.2 == (if r.0 {
                SecurityAction::Blocked
            } else {
                SecurityAction::Allowed
            }),
    {
        let (should_block, reason) = self.rules.should_block_device(device);
        if should_block {
            (true, reason, SecurityAction::Blocked)
        } else {
            (false, None, SecurityAction::Allowed)
        }
    }

    /// The enumerated devices that pass the name filter, in order.
    pub fn get_connected_devices(&self, enumerated: &Vec<UsbDeviceInfo>) -> (r: Vec<UsbDeviceInfo>)
        ensures
            r@ == filtered(self.filter(), enumerated@),
    {
        let mut out: Vec<UsbDeviceInfo> = Vec::new();
        let mut i: usize = 0;
        let ghost pred = |d: UsbDeviceInfo| passes_filter(self.filter(), d);
        proof {
            reveal(Seq::filter);
            assert(enumerated@.subrange(0, 0).filter(pred) =~= Seq::<UsbDeviceInfo>::empty());
        }
        while i < enumerated.len()
            invariant
                i <= enumerated.len(),
                pred == (|d: UsbDeviceInfo| passes_filter(self.filter(), d)),
                out@ == enumerated@.subrange(0, i as int).filter(pred),
            decreases enumerated.len() - i,
        {
            let ghost prefix = enumerated@.subrange(0, i + 1);
            let ghost before = enumerated@.subrange(0, i as int).filter(pred);
            proof {
                reveal(Seq::filter);
                assert(prefix.drop_last() =~= enumerated@.subrange(0, i as int));
                assert(prefix.last() == enumerated@[i as int]);
                assert(prefix.filter(pred) == (if pred(enumerated@[i as int]) {
                    before.push(enumerated@[i as int])
                } else {
                    before
                }));
            }
            if passes_filter_exec(&self.device_filter, &enumerated[i]) {
                out.push(enumerated[i].clone());
            }
            i = i + 1;
        }
        assert(enumerated@.subrange(0, enumerated.len() as int) =~= enumerated@);
        out
    }
}


/// The security log went from `before` to `after` by one decision event for
/// each of `devices`, in order.
pub open spec fn logged_decisions(
    before: Seq<SecurityEvent>,
    after: Seq<SecurityEvent>,
    devices: Seq<UsbDeviceInfo>,
    rules: DeviceRulesConfig,
    now: i64,
) -> bool {
    exists|es: Seq<SecurityEvent>|
        {
            &&& es.len() == devices.len()
            &&& forall|i: int|
                0 <= i < es.len() ==> #[trigger] decision_event(es[i], rules, devices[i], now)
            &&& after == push_all(before, es, LOG_CAPACITY as nat)
        }
}

fn status_of(c: &UsbDeviceChange) -> (r: ConnectionStatus)
    ensures
        r == change_status(*c),
{
    match c {
        UsbDeviceChange::Connected(_) => ConnectionStatus::Connected,
        UsbDeviceChange::Disconnected(_) => ConnectionStatus::Disconnected,
        UsbDeviceChange::Reconnected(_) => ConnectionStatus::Reconnected,
        UsbDeviceChange::Blocked(_) => ConnectionStatus::Blocked,
    }
}

impl UsbMonitor {
    /// One poll over the enumerated devices: the ones passing the filter are
    /// diffed against the previous map (disconnects first, then arrivals),
    /// each newcomer goes through the policy and is logged, every change is
    /// recorded in history and statistics. The next previous map holds the
    /// snapshot's devices and, tagged Disconnected, every device that has
    /// left, so that a device coming back is reported Reconnected and one
    /// that stays away is reported Disconnected only once. The filter applies before the diff: a
    /// device that fails it is not reported, not evaluated by the policy and
    /// not logged (`lemma_policy_sees_filtered_devices`).
    pub fn monitor_changes(&mut self, enumerated: &Vec<UsbDeviceInfo>, now: i64) -> (r: Vec<
        UsbDeviceChange,
    >)
        requires
            old(self).wf(),
        ensures
            final(self).wf(),
            r@ == diff_changes(
                old(self).prev(),
                filtered(old(self).filter(), enumerated@),
                old(self).rules(),
                now,
            ),
            final(self).prev() == next_prev(
                old(self).prev(),
                keyed(filtered(old(self).filter(), enumerated@)),
                now,
            ),
            final(self).ledger() == record_changes(old(self).ledger(), r@, now),
            logged_decisions(
                old(self).events(),
                final(self).events(),
                newcomers(old(self).prev(), keyed(filtered(old(self).filter(), enumerated@))),
                old(self).rules(),
                now,
            ),
            final(self).filter() == old(self).filter(),
            final(self).rules() == old(self).rules(),
    {
        let current = self.get_connected_devices(enumerated);
        let cur = build_keyed(&current);
        let ghost prev0 = self.previous_devices@;
        let ghost rules0 = self.rules;
        let ghost filter0 = self.device_filter;
        let ghost ledger0 = self.ledger();
        let ghost events0 = self.security_events@;
        let mut changes: Vec<UsbDeviceChange> = Vec::new();
        let mut i: usize = 0;
        while i < self.previous_devices.len()
            invariant
                i <= self.previous_devices.len(),
                self.previous_devices@ == prev0,
                distinct_keys(cur@),
                changes@ == disconnects(prev0.subrange(0, i as int), cur@, now),
            decreases self.previous_devices.len() - i,
        {
            let ghost sub = prev0.subrange(0, i + 1);
            proof {
                assert(sub.drop_last() =~= prev0.subrange(0, i as int));
                assert(sub.last() == prev0[i as int]);
            }
            let p = &self.previous_devices[i];
            if index_of_key(&cur, p.create_device_key()).is_none() && p.connection_status
                != ConnectionStatus::Disconnected {
                let mut d = p.clone();
                d.connection_status = ConnectionStatus::Disconnected;
                d.timestamp = now;
                changes.push(UsbDeviceChange::Disconnected(d));
            }
            i = i + 1;
        }
        proof {
            assert(prev0.subrange(0, prev0.len() as int) =~= prev0);
            assert(arrivals(prev0, cur@.subrange(0, 0), rules0) =~= Seq::<UsbDeviceChange>::empty());
            assert(changes@ =~= disconnects(prev0, cur@, now) + arrivals(
                prev0,
                cur@.subrange(0, 0),
                rules0,
            ));
            assert(newcomers(prev0, cur@.subrange(0, 0)) =~= Seq::<UsbDeviceInfo>::empty());
            assert(push_all(events0, Seq::<SecurityEvent>::empty(), LOG_CAPACITY as nat) == events0);
        }
        let ghost mut es: Seq<SecurityEvent> = Seq::empty();
        let mut j: usize = 0;
        while j < cur.len()
            invariant
                j <= cur.len(),
                self.wf(),
                self.previous_devices@ == prev0,
                self.rules == rules0,
                self.device_filter == filter0,
                self.ledger() == ledger0,
                distinct_keys(cur@),
                distinct_keys(prev0),
                changes@ == disconnects(prev0, cur@, now) + arrivals(
                    prev0,
                    cur@.subrange(0, j as int),
                    rules0,
                ),
                es.len() == newcomers(prev0, cur@.subrange(0, j as int)).len(),
                forall|k: int|
                    0 <= k < es.len() ==> #[trigger] decision_event(
                        es[k],
                        rules0,
                        newcomers(prev0, cur@.subrange(0, j as int))[k],
                        now,
                    ),
                self.security_events@ == push_all(events0, es, LOG_CAPACITY as nat),
            decreases cur.len() - j,
        {
            let ghost sub = cur@.subrange(0, j + 1);
            let ghost before = changes@;
            let ghost nc_before = newcomers(prev0, cur@.subrange(0, j as int));
            proof {
                assert(sub.drop_last() =~= cur@.subrange(0, j as int));
                assert(sub.last() == cur@[j as int]);
            }
            let d = &cur[j];
            match index_of_key(&self.previous_devices, d.create_device_key()) {
                None => {
                    let (blocked, _reason, _action) = self.check_device_security(d, now);
                    let ghost e = self.security_events@.last();
                    proof {
                        let es2 = es.push(e);
                        assert(es2.drop_last() =~= es);
                        assert(newcomers(prev0, sub) == nc_before.push(*d));
                        assert forall|k: int| 0 <= k < es2.len() implies #[trigger] decision_event(
                            es2[k],
                            rules0,
                            newcomers(prev0, sub)[k],
                            now,
                        ) by {
                            if k < es.len() {
                                assert(es2[k] == es[k]);
                                assert(newcomers(prev0, sub)[k] == nc_before[k]);
                            }
                        }
                        es = es2;
                    }
                    let mut nd = d.clone();
                    if blocked {
                        nd.connection_status = ConnectionStatus::Blocked;
                        changes.push(UsbDeviceChange::Blocked(nd));
                    } else {
                        nd.connection_status = ConnectionStatus::Connected;
                        changes.push(UsbDeviceChange::Connected(nd));
                    }
                    proof {
                        assert(changes@ =~= disconnects(prev0, cur@, now) + arrivals(prev0, sub, rules0));
                    }
                },
                Some(k) => {
                    proof {
                        assert(newcomers(prev0, sub) == nc_before);
                    }
                    if self.previous_devices[k].connection_status == ConnectionStatus::Disconnected {
                        let mut nd = d.clone();
                        nd.connection_status = ConnectionStatus::Reconnected;
                        changes.push(UsbDeviceChange::Reconnected(nd));
                    }
                    proof {
                        assert(changes@ =~= disconnects(prev0, cur@, now) + arrivals(prev0, sub, rules0));
                    }
                },
            }
            j = j + 1;
        }
        proof {
            assert(cur@.subrange(0, cur@.len() as int) =~= cur@);
            assert(record_changes(ledger0, changes@.subrange(0, 0), now) == ledger0);
        }
        let ghost events1 = self.security_events@;
        let mut c: usize = 0;
        while c < changes.len()
            invariant
                c <= changes.len(),
                self.wf(),
                self.previous_devices@ == prev0,
                self.rules == rules0,
                self.device_filter == filter0,
                self.security_events@ == events1,
                self.ledger() == record_changes(ledger0, changes@.subrange(0, c as int), now),
            decreases changes.len() - c,
        {
            let ghost sub = changes@.subrange(0, c + 1);
            proof {
                assert(sub.drop_last() =~= changes@.subrange(0, c as int));
                assert(sub.last() == changes@[c as int]);
            }
            let key = changes[c].get_device_info().create_device_key();
            let status = status_of(&changes[c]);
            self.update_device_statistics(&key, status, now);
            c = c + 1;
        }
        proof {
            assert(changes@.subrange(0, changes@.len() as int) =~= changes@);
        }
        self.previous_devices = build_next_prev(&self.previous_devices, &cur, now);
        changes
    }

    /// Seeds the monitor from the first scan: the filtered devices become the
    /// previous map and each is recorded as Connected (Blocked when the
    /// snapshot says so), without a policy decision. Whatever the previous
    /// map held before is dropped. Polling after the seed
    /// is one `monitor_changes` call per tick; the service's `on_scan` makes
    /// that call and hands on the batch in order (nothing for an empty one),
    /// and reports a failed scan without stopping.
    pub fn start_monitoring(&mut self, initial: &Vec<UsbDeviceInfo>, now: i64)
        requires
            old(self).wf(),
        ensures
            final(self).wf(),
            final(self).prev() == keyed(filtered(old(self).filter(), initial@)),
            final(self).ledger() == record_changes(
                old(self).ledger(),
                seed_changes(keyed(filtered(old(self).filter(), initial@))),
                now,
            ),
            final(self).events() == old(self).events(),
            final(self).filter() == old(self).filter(),
            final(self).rules() == old(self).rules(),
    {
        let current = self.get_connected_devices(initial);
        let cur = build_keyed(&current);
        let ghost ledger0 = self.ledger();
        let mut c: usize = 0;
        proof {
            assert(seed_changes(cur@.subrange(0, 0)) =~= Seq::<UsbDeviceChange>::empty());
        }
        while c < cur.len()
            invariant
                c <= cur.len(),
                self.wf(),
                self.previous_devices@ == old(self).previous_devices@,
                self.rules == old(self).rules,
                self.device_filter == old(self).device_filter,
                self.security_events@ == old(self).security_events@,
                self.ledger() == record_changes(ledger0, seed_changes(cur@.subrange(0, c as int)), now),
            decreases cur.len() - c,
        {
            let ghost sub = cur@.subrange(0, c + 1);
            proof {
                assert(sub.drop_last() =~= cur@.subrange(0, c as int));
                assert(seed_changes(sub).drop_last() =~= seed_changes(cur@.subrange(0, c as int)));
            }
            let key = cur[c].create_device_key();
            let status = if cur[c].connection_status == ConnectionStatus::Blocked {
                ConnectionStatus::Blocked
            } else {
                ConnectionStatus::Connected
            };
            self.update_device_statistics(&key, status, now);
            c = c + 1;
        }
        proof {
            assert(cur@.subrange(0, cur@.len() as int) =~= cur@);
        }
        self.previous_devices = cur;
    }
}

/// The transitions recorded when seeding from a first scan.
pub open spec fn seed_changes(s: Seq<UsbDeviceInfo>) -> Seq<UsbDeviceChange>
    decreases s.len(),
{
    if s.len() == 0 {
        Seq::empty()
    } else {
        let d = s.last();
        seed_changes(s.drop_last()).push(
            if d.connection_status == ConnectionStatus::Blocked {
                UsbDeviceChange::Blocked(d)
            } else {
                UsbDeviceChange::Connected(d)
            },
        )
    }
}

/// Security of first connections, for a snapshot holding one device `d` new
/// to the previous map. `d` is the one device the pass evaluates (so exactly
/// one decision event is logged). When an enabled rule of an enabled
/// blacklist matches it (and whitelist mode, if on, admits it) its arrival
/// change is Blocked, and any decision event
/// for it is a DeviceBlocked event carrying the first matching rule's reason.
/// When neither list blocks it, its arrival change is Connected and its
/// decision event is a DeviceAllowed one.
pub proof fn lemma_first_connection_outcome(
    prev: Seq<UsbDeviceInfo>,
    d: UsbDeviceInfo,
    rules: DeviceRulesConfig,
    now: i64,
    e: SecurityEvent,
)
    requires
        !has_key(prev, d.key()),
        decision_event(e, rules, d, now),
    ensures
        newcomers(prev, keyed(seq![d])) == seq![d],
        rules.blacklist_enabled && crate::config::any_applies(rules.blacklisted_devices@, d)
            && !crate::config::refused_by_whitelist(rules, d) ==> {
            &&& arrivals(prev, keyed(seq![d]), rules) == seq![
                UsbDeviceChange::Blocked(d.with_status(ConnectionStatus::Blocked)),
            ]
            &&& e.event_type == SecurityEventType::DeviceBlocked
            &&& e.action_taken == SecurityAction::Blocked
            &&& crate::config::first_applying(rules.blacklisted_devices@, d) matches Some(rule)
                && e.reason@ == rule.reason@
        },
        !is_blocked(rules, d) ==> {
            &&& arrivals(prev, keyed(seq![d]), rules) == seq![
                UsbDeviceChange::Connected(d.with_status(ConnectionStatus::Connected)),
            ]
            &&& e.event_type == SecurityEventType::DeviceAllowed
            &&& e.action_taken == SecurityAction::Allowed
        },
{
    let one = seq![d];
    assert(one.drop_last() =~= Seq::<UsbDeviceInfo>::empty());
    assert(keyed(Seq::<UsbDeviceInfo>::empty()) =~= Seq::<UsbDeviceInfo>::empty());
    assert(!has_key(Seq::<UsbDeviceInfo>::empty(), d.key()));
    assert(keyed(one) =~= one);
    assert(one.last() == d);
    assert(newcomers(prev, one.drop_last()) =~= Seq::<UsbDeviceInfo>::empty());
    assert(newcomers(prev, one) =~= one);
    assert(arrivals(prev, one.drop_last(), rules) =~= Seq::<UsbDeviceChange>::empty());
    if !is_blocked(rules, d) {
        assert(arrivals(prev, one, rules) =~= seq![
            UsbDeviceChange::Connected(d.with_status(ConnectionStatus::Connected)),
        ]);
    }
    if rules.blacklist_enabled && crate::config::any_applies(rules.blacklisted_devices@, d)
        && !crate::config::refused_by_whitelist(rules, d) {
        crate::config::lemma_first_applying_pub(rules.blacklisted_devices@, d);
        assert(arrivals(prev, one, rules) =~= seq![
            UsbDeviceChange::Blocked(d.with_status(ConnectionStatus::Blocked)),
        ]);
    }
}

/// A distribution lists each value once, with the saturated count of the
/// devices of `s` that have it, and lists every value present in `s`.
pub open spec fn class_distribution_of(d: Seq<(u8, u32)>, s: Seq<UsbDeviceInfo>) -> bool {
    &&& forall|i: int, j: int| 0 <= i < d.len() && 0 <= j < d.len() && i != j ==> d[i].0 != d[j].0
    &&& forall|i: int| 0 <= i < d.len() ==> #[trigger] d[i].1 == sat_u32(class_count(s, d[i].0))
    &&& forall|c: u8| class_count(s, c) > 0 ==> exists|i: int| 0 <= i < d.len() && #[trigger] d[i].0 == c
}

pub open spec fn vendor_distribution_of(d: Seq<(u16, u32)>, s: Seq<UsbDeviceInfo>) -> bool {
    &&& forall|i: int, j: int| 0 <= i < d.len() && 0 <= j < d.len() && i != j ==> d[i].0 != d[j].0
    &&& forall|i: int| 0 <= i < d.len() ==> #[trigger] d[i].1 == sat_u32(vendor_count(s, d[i].0))
    &&& forall|v: u16| vendor_count(s, v) > 0 ==> exists|i: int| 0 <= i < d.len() && #[trigger] d[i].0 == v
}

fn position_class(d: &Vec<(u8, u32)>, c: u8) -> (r: Option<usize>)
    ensures
        match r {
            Some(k) => k < d@.len() && d@[k as int].0 == c,
            None => forall|m: int| 0 <= m < d@.len() ==> #[trigger] d@[m].0 != c,
        },
{
    let mut k: usize = 0;
    while k < d.len()
        invariant
            k <= d.len(),
            forall|m: int| 0 <= m < k ==> #[trigger] d@[m].0 != c,
        decreases d.len() - k,
    {
        if d[k].0 == c {
            return Some(k);
        }
        k = k + 1;
    }
    None
}

fn position_vendor(d: &Vec<(u16, u32)>, c: u16) -> (r: Option<usize>)
    ensures
        match r {
            Some(k) => k < d@.len() && d@[k as int].0 == c,
            None => forall|m: int| 0 <= m < d@.len() ==> #[trigger] d@[m].0 != c,
        },
{
    let mut k: usize = 0;
    while k < d.len()
        invariant
            k <= d.len(),
            forall|m: int| 0 <= m < k ==> #[trigger] d@[m].0 != c,
        decreases d.len() - k,
    {
        if d[k].0 == c {
            return Some(k);
        }
        k = k + 1;
    }
    None
}

fn class_distribution(s: &Vec<UsbDeviceInfo>) -> (r: Vec<(u8, u32)>)
    ensures
        class_distribution_of(r@, s@),
{
    let mut d: Vec<(u8, u32)> = Vec::new();
    let mut i: usize = 0;
    while i < s.len()
        invariant
            i <= s.len(),
            class_distribution_of(d@, s@.subrange(0, i as int)),
        decreases s.len() - i,
    {
        let ghost pre = s@.subrange(0, i as int);
        let ghost pre1 = s@.subrange(0, i + 1);
        assert(pre1.drop_last() =~= pre);
        let c = s[i].device_class;
        let pos = position_class(&d, c);
        let found = pos.is_some();
        let k: usize = match pos {
            Some(k) => k,
            None => 0,
        };
        let ghost old_d = d@;
        if found {
            let n = d[k].1.saturating_add(1);
            d.set(k, (c, n));
        } else {
            d.push((c, 1));
        }
        proof {
            assert forall|m: int| 0 <= m < d@.len() implies #[trigger] d@[m].1 == sat_u32(
                class_count(pre1, d@[m].0),
            ) by {
                if m < old_d.len() && d@[m].0 != c {
                    assert(d@[m] == old_d[m]);
                }
                if !found && m == old_d.len() {
                    if class_count(pre, c) > 0 {
                        let w = choose|w: int| 0 <= w < old_d.len() && #[trigger] old_d[w].0 == c;
                        assert(old_d[w].0 != c);
                    }
                }
            }
            assert forall|cc: u8| class_count(pre1, cc) > 0 implies exists|m: int|
                0 <= m < d@.len() && #[trigger] d@[m].0 == cc by {
                if cc == c {
                    if found {
                        assert(d@[k as int].0 == cc);
                    } else {
                        assert(d@[old_d.len() as int].0 == cc);
                    }
                } else {
                    assert(class_count(pre, cc) > 0);
                    let w = choose|w: int| 0 <= w < old_d.len() && #[trigger] old_d[w].0 == cc;
                    assert(d@[w].0 == cc);
                }
            }
        }
        i = i + 1;
    }
    assert(s@.subrange(0, s@.len() as int) =~= s@);
    d
}

fn vendor_distribution(s: &Vec<UsbDeviceInfo>) -> (r: Vec<(u16, u32)>)
    ensures
        vendor_distribution_of(r@, s@),
{
    let mut d: Vec<(u16, u32)> = Vec::new();
    let mut i: usize = 0;
    while i < s.len()
        invariant
            i <= s.len(),
            vendor_distribution_of(d@, s@.subrange(0, i as int)),
        decreases s.len() - i,
    {
        let ghost pre = s@.subrange(0, i as int);
        let ghost pre1 = s@.subrange(0, i + 1);
        assert(pre1.drop_last() =~= pre);
        let c = s[i].vendor_id;
        let pos = position_vendor(&d, c);
        let found = pos.is_some();
        let k: usize = match pos {
            Some(k) => k,
            None => 0,
        };
        let ghost old_d = d@;
        if found {
            let n = d[k].1.saturating_add(1);
            d.set(k, (c, n));
        } else {
            d.push((c, 1));
        }
        proof {
            assert forall|m: int| 0 <= m < d@.len() implies #[trigger] d@[m].1 == sat_u32(
                vendor_count(pre1, d@[m].0),
            ) by {
                if m < old_d.len() && d@[m].0 != c {
                    assert(d@[m] == old_d[m]);
                }
                if !found && m == old_d.len() {
                    if vendor_count(pre, c) > 0 {
                        let w = choose|w: int| 0 <= w < old_d.len() && #[trigger] old_d[w].0 == c;
                        assert(old_d[w].0 != c);
                    }
                }
            }
            assert forall|cc: u16| vendor_count(pre1, cc) > 0 implies exists|m: int|
                0 <= m < d@.len() && #[trigger] d@[m].0 == cc by {
                if cc == c {
                    if found {
                        assert(d@[k as int].0 == cc);
                    } else {
                        assert(d@[old_d.len() as int].0 == cc);
                    }
                } else {
                    assert(vendor_count(pre, cc) > 0);
                    let w = choose|w: int| 0 <= w < old_d.len() && #[trigger] old_d[w].0 == cc;
                    assert(d@[w].0 == cc);
                }
            }
        }
        i = i + 1;
    }
    assert(s@.subrange(0, s@.len() as int) =~= s@);
    d
}

fn connections_in(h: &[HistoryEntry], lo: i128, hi: i128) -> (r: u32)
    ensures
        r == sat_u32(connections_between(h@, lo as int, hi as int)),
{
    let mut n: u32 = 0;
    let mut i: usize = 0;
    while i < h.len()
        invariant
            i <= h.len(),
            n == sat_u32(connections_between(h@.subrange(0, i as int), lo as int, hi as int)),
        decreases h.len() - i,
    {
        let ghost pre1 = h@.subrange(0, i + 1);
        assert(pre1.drop_last() =~= h@.subrange(0, i as int));
        let e = h[i];
        if e.status == ConnectionStatus::Connected && lo <= e.timestamp as i128 && (e.timestamp as i128)
            < hi {
            n = n.saturating_add(1);
        }
        i = i + 1;
    }
    assert(h@.subrange(0, h@.len() as int) =~= h@);
    n
}

impl UsbMonitor {
    /// The devices of the previous map among the keys with statistics.
    fn known_device_list(&self) -> (r: Vec<UsbDeviceInfo>)
        requires
            self.wf(),
        ensures
            r@ == known_devices(self.stats(), self.prev()),
    {
        let mut out: Vec<UsbDeviceInfo> = Vec::new();
        let mut i: usize = 0;
        while i < self.device_statistics.len()
            invariant
                i <= self.device_statistics.len(),
                self.wf(),
                out@ == known_devices(self.stats().subrange(0, i as int), self.prev()),
            decreases self.device_statistics.len() - i,
        {
            let ghost pre1 = self.stats().subrange(0, i + 1);
            assert(pre1.drop_last() =~= self.stats().subrange(0, i as int));
            match index_of_key(&self.previous_devices, self.device_statistics[i].key) {
                Some(j) => {
                    out.push(self.previous_devices[j].clone());
                },
                None => {},
            }
            i = i + 1;
        }
        assert(self.stats().subrange(0, self.stats().len() as int) =~= self.stats());
        out
    }

    fn blocked_sum(&self) -> (r: u32)
        ensures
            r == blocked_total(self.stats()),
    {
        let mut n: u32 = 0;
        let mut i: usize = 0;
        while i < self.device_statistics.len()
            invariant
                i <= self.device_statistics.len(),
                n == blocked_total(self.stats().subrange(0, i as int)),
            decreases self.device_statistics.len() - i,
        {
            let ghost pre1 = self.stats().subrange(0, i + 1);
            assert(pre1.drop_last() =~= self.stats().subrange(0, i as int));
            n = n.saturating_add(self.device_statistics[i].stats.total_blocked);
            i = i + 1;
        }
        assert(self.stats().subrange(0, self.stats().len() as int) =~= self.stats());
        n
    }

    /// Point-in-time summary at `now`: class and vendor counts over the
    /// devices of the previous map (present or departed) that have
    /// statistics, the number of history entries,
    /// of keys with statistics, of blocks and of security events, and for
    /// each of the 24 hours before `now` the Connected entries in it.
    pub fn get_device_analytics(&self, now: i64) -> (r: DeviceAnalytics)
        requires
            self.wf(),
        ensures
            class_distribution_of(
                r.device_class_distribution@,
                known_devices(self.stats(), self.prev()),
            ),
            vendor_distribution_of(r.vendor_distribution@, known_devices(self.stats(), self.prev())),
            r.total_devices_seen == self.history().len(),
            r.unique_devices == sat_u32(self.stats().len()),
            r.blocked_devices == blocked_total(self.stats()),
            r.security_violations == self.events().len(),
            r.connection_frequency@.len() == 24,
            forall|h: int|
                0 <= h < 24 ==> #[trigger] r.connection_frequency@[h] == (
                    clamp_i64(bucket_start(now, h)),
                    sat_u32(
                        connections_between(
                            self.history(),
                            bucket_start(now, h),
                            bucket_start(now, h) + HOUR_MILLIS,
                        ),
                    ),
                ),
    {
        let known = self.known_device_list();
        let classes = class_distribution(&known);
        let vendors = vendor_distribution(&known);
        let hist = self.connection_history.as_slice();
        let mut freq: Vec<(i64, u32)> = Vec::new();
        let mut h: i64 = 0;
        while h < 24
            invariant
                0 <= h <= 24,
                hist@ == self.history(),
                freq@.len() == h,
                forall|k: int|
                    0 <= k < h ==> #[trigger] freq@[k] == (
                        clamp_i64(bucket_start(now, k)),
                        sat_u32(
                            connections_between(
                                self.history(),
                                bucket_start(now, k),
                                bucket_start(now, k) + HOUR_MILLIS,
                            ),
                        ),
                    ),
            decreases 24 - h,
        {
            let lo: i128 = now as i128 - 24 * (HOUR_MILLIS as i128) + (h as i128) * (HOUR_MILLIS as i128);
            let hi: i128 = lo + HOUR_MILLIS as i128;
            let start: i64 = if lo < i64::MIN as i128 {
                i64::MIN
            } else if lo > i64::MAX as i128 {
                i64::MAX
            } else {
                lo as i64
            };
            let count = connections_in(hist, lo, hi);
            freq.push((start, count));
            h = h + 1;
        }
        let unique: u32 = if self.device_statistics.len() > u32::MAX as usize {
            u32::MAX
        } else {
            self.device_statistics.len() as u32
        };
        DeviceAnalytics {
            device_class_distribution: classes,
            vendor_distribution: vendors,
            connection_frequency: freq,
            total_devices_seen: self.connection_history.len() as u32,
            unique_devices: unique,
            blocked_devices: self.blocked_sum(),
            security_violations: self.security_events.len() as u32,
        }
    }
}

/// Every device kept by the name filter passes it and is one of the
/// enumerated devices.
pub proof fn lemma_filtered_from(filter: Option<String>, s: Seq<UsbDeviceInfo>)
    ensures
        forall|i: int|
            0 <= i < filtered(filter, s).len() ==> passes_filter(filter, #[trigger] filtered(filter, s)[i])
                && exists|j: int| 0 <= j < s.len() && s[j] == filtered(filter, s)[i],
    decreases s.len(),
{
    reveal(Seq::filter);
    let f = filtered(filter, s);
    if s.len() > 0 {
        let t = s.drop_last();
        lemma_filtered_from(filter, t);
        let ft = filtered(filter, t);
        assert forall|i: int| 0 <= i < f.len() implies passes_filter(filter, #[trigger] f[i]) && exists|j: int|
            0 <= j < s.len() && s[j] == f[i] by {
            if i < ft.len() {
                assert(f[i] == ft[i]);
                let j = choose|j: int| 0 <= j < t.len() && t[j] == ft[i];
                assert(s[j] == t[j]);
            } else {
                assert(f[i] == s[s.len() - 1]);
            }
        }
    }
}

/// The name filter also bounds what the policy sees: every device that a
/// pass evaluates (a newcomer) passes the filter, so a device that fails it
/// is neither reported nor evaluated nor logged.
pub proof fn lemma_policy_sees_filtered_devices(
    prev: Seq<UsbDeviceInfo>,
    filter: Option<String>,
    s: Seq<UsbDeviceInfo>,
)
    ensures
        forall|i: int|
            0 <= i < newcomers(prev, keyed(filtered(filter, s))).len() ==> passes_filter(
                filter,
                #[trigger] newcomers(prev, keyed(filtered(filter, s)))[i],
            ),
{
    let f = filtered(filter, s);
    let cur = keyed(f);
    lemma_filtered_from(filter, s);
    crate::diff::lemma_keyed(f);
    crate::diff::lemma_newcomers_shape(prev, cur);
    let nc = newcomers(prev, cur);
    assert forall|i: int| 0 <= i < nc.len() implies passes_filter(filter, #[trigger] nc[i]) by {
        let j = choose|j: int| 0 <= j < cur.len() && cur[j] == nc[i];
        let k = choose|k: int| 0 <= k < f.len() && f[k] == #[trigger] cur[j];
        assert(passes_filter(filter, f[k]));
    }
}

/// Steady state of the monitor: after `monitor_changes` over a snapshot,
/// from any previous map, a second call over the same snapshot with the same
/// filter emits no change, leaves statistics and history as they are and
/// logs no decision.
pub proof fn lemma_monitor_second_pass(
    prev: Seq<UsbDeviceInfo>,
    filter: Option<String>,
    s: Seq<UsbDeviceInfo>,
    rules: DeviceRulesConfig,
    now1: i64,
    now2: i64,
    ledger: Ledger,
)
    requires
        distinct_keys(prev),
    ensures
        ({
            let f = filtered(filter, s);
            let p2 = next_prev(prev, keyed(f), now1);
            let ch = diff_changes(p2, f, rules, now2);
            &&& ch.len() == 0
            &&& record_changes(ledger, ch, now2) == ledger
            &&& newcomers(p2, keyed(f)).len() == 0
        }),
{
    let f = filtered(filter, s);
    let cur = keyed(f);
    crate::diff::lemma_second_pass_is_quiet(prev, f, rules, now1, now2);
    let p2 = next_prev(prev, cur, now1);
    let ch = diff_changes(p2, f, rules, now2);
    assert(ch =~= Seq::<UsbDeviceChange>::empty());
    crate::diff::lemma_keyed(f);
    crate::diff::lemma_next_prev(prev, cur, now1);
    crate::diff::lemma_newcomers_shape(p2, cur);
    let nc = newcomers(p2, cur);
    if nc.len() > 0 {
        assert(!has_key(p2, nc[0].key()));
        let j = choose|j: int| 0 <= j < cur.len() && cur[j] == nc[0];
        assert(p2[j].key() == cur[j].key());
    }
}

/// Security of first connections in any snapshot. Let `d` be a device of
/// a snapshot with distinct keys whose key is new to the previous map. The
/// pass reports exactly one change with `d`'s key: Blocked when the policy
/// blocks `d` (as it does whenever an enabled rule of an enabled blacklist
/// matches `d` and whitelist mode, if on, admits it), Connected otherwise.
/// `d` is exactly one of the devices the pass evaluates, so exactly one
/// decision event is logged for it (see `monitor_changes`), a DeviceBlocked
/// one when blocked and a DeviceAllowed one otherwise.
pub proof fn lemma_newcomer_outcome(
    prev: Seq<UsbDeviceInfo>,
    current: Seq<UsbDeviceInfo>,
    rules: DeviceRulesConfig,
    now: i64,
    d: UsbDeviceInfo,
)
    requires
        distinct_keys(current),
        current.contains(d),
        !has_key(prev, d.key()),
    ensures
        ({
            let ch = diff_changes(prev, current, rules, now);
            let expected = if is_blocked(rules, d) {
                UsbDeviceChange::Blocked(d.with_status(ConnectionStatus::Blocked))
            } else {
                UsbDeviceChange::Connected(d.with_status(ConnectionStatus::Connected))
            };
            exists|i: int|
                0 <= i < ch.len() && ch[i] == expected && forall|j: int|
                    0 <= j < ch.len() && j != i ==> (#[trigger] ch[j]).info().key() != d.key()
        }),
        ({
            let nc = newcomers(prev, keyed(current));
            exists|i: int|
                0 <= i < nc.len() && nc[i] == d && forall|j: int|
                    0 <= j < nc.len() && j != i ==> (#[trigger] nc[j]).key() != d.key()
        }),
        rules.blacklist_enabled && crate::config::any_applies(rules.blacklisted_devices@, d)
            && !crate::config::refused_by_whitelist(rules, d) ==> is_blocked(rules, d),
        forall|e: SecurityEvent|
            #[trigger] decision_event(e, rules, d, now) ==> (if is_blocked(rules, d) {
                e.event_type == SecurityEventType::DeviceBlocked
            } else {
                e.event_type == SecurityEventType::DeviceAllowed
            }),
{
    crate::diff::lemma_keyed_distinct(current);
    let cur = keyed(current);
    let k = choose|k: int| 0 <= k < current.len() && current[k] == d;
    crate::diff::lemma_arrivals_shape(prev, cur, rules);
    crate::diff::lemma_newcomers_shape(prev, cur);
    crate::diff::lemma_disconnects_keys(prev, cur, now);
    let dis = disconnects(prev, cur, now);
    let arr = arrivals(prev, cur, rules);
    let ch = dis + arr;
    assert(find(prev, d.key()) is None);
    let expected = arrival(prev, d, rules)->0;
    assert(cur[k] == d);
    assert(arrival(prev, cur[k], rules) is Some);
    let ia = choose|ia: int| 0 <= ia < arr.len() && Some(arr[ia]) == arrival(prev, cur[k], rules);
    let i = dis.len() + ia;
    assert(ch[i] == expected);
    assert forall|j: int| 0 <= j < ch.len() && j != i implies (#[trigger] ch[j]).info().key() != d.key() by {
        if j < dis.len() {
            assert(ch[j] == dis[j]);
            assert(has_key(prev, dis[j].info().key()));
        } else {
            assert(ch[j] == arr[j - dis.len()]);
            assert(arr[ia].info().key() == d.key());
        }
    }
    let want = if is_blocked(rules, d) {
        UsbDeviceChange::Blocked(d.with_status(ConnectionStatus::Blocked))
    } else {
        UsbDeviceChange::Connected(d.with_status(ConnectionStatus::Connected))
    };
    assert(expected == want);
    assert(diff_changes(prev, current, rules, now) == ch);
    assert(0 <= i < ch.len() && ch[i] == want && forall|j: int|
        0 <= j < ch.len() && j != i ==> (#[trigger] ch[j]).info().key() != d.key());
    let nc = newcomers(prev, cur);
    assert(!has_key(prev, cur[k].key()));
    let n = choose|n: int| 0 <= n < nc.len() && nc[n] == cur[k];
    assert forall|j: int| 0 <= j < nc.len() && j != n implies (#[trigger] nc[j]).key() != d.key() by {
        assert(nc[n].key() == d.key());
    }
    assert(0 <= n < nc.len() && nc[n] == d && forall|j: int|
        0 <= j < nc.len() && j != n ==> (#[trigger] nc[j]).key() != d.key());
}

} // verus!
