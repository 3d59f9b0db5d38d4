use vstd::prelude::*;
use vstd::string::StringExecFns;
use crate::device::UsbDeviceInfo;
use crate::text::{
    bool_string, contains_folded, contains_ignore_case, decimal, decimal_string, parse_bool,
    parse_bool_spec, parse_u64, parse_u64_spec, str_eq,
};
use crate::error::ConfigError;

verus! {

/// A device matcher. Absent fields are wildcards; string fields are
/// case-insensitive substring tests that fail on a device lacking the string.
/// `created_at` is in milliseconds since the Unix epoch.
#[derive(Debug)]
pub struct DeviceRule {
    pub vendor_id: Option<u16>,
    pub product_id: Option<u16>,
    pub device_class: Option<u8>,
    pub manufacturer: Option<String>,
    pub product_name: Option<String>,
    pub serial_number: Option<String>,
    pub reason: String,
    pub created_at: i64,
    pub enabled: bool,
}

impl Clone for DeviceRule {
    fn clone(&self) -> (r: Self)
        ensures
            r == *self,
    {
        DeviceRule {
            vendor_id: self.vendor_id,
            product_id: self.product_id,
            device_class: self.device_class,
            manufacturer: crate::device::clone_opt_string(&self.manufacturer),
            product_name: crate::device::clone_opt_string(&self.product_name),
            serial_number: crate::device::clone_opt_string(&self.serial_number),
            reason: self.reason.clone(),
            created_at: self.created_at,
            enabled: self.enabled,
        }
    }
}

/// Optional string views are equal.
pub open spec fn opt_view_eq(a: Option<String>, b: Option<String>) -> bool {
    match (a, b) {
        (Some(x), Some(y)) => x@ == y@,
        (None, None) => true,
        _ => false,
    }
}

fn opt_str_eq(a: &Option<String>, b: &Option<String>) -> (r: bool)
    ensures
        r == opt_view_eq(*a, *b),
{
    match (a, b) {
        (Some(x), Some(y)) => x.eq(y),
        (None, None) => true,
        _ => false,
    }
}

/// Two rules are the same rule: every field agrees.
pub open spec fn same_rule(a: DeviceRule, b: DeviceRule) -> bool {
    &&& a.vendor_id == b.vendor_id
    &&& a.product_id == b.product_id
    &&& a.device_class == b.device_class
    &&& opt_view_eq(a.manufacturer, b.manufacturer)
    &&& opt_view_eq(a.product_name, b.product_name)
    &&& opt_view_eq(a.serial_number, b.serial_number)
    &&& a.reason@ == b.reason@
    &&& a.created_at == b.created_at
    &&& a.enabled == b.enabled
}

impl PartialEq for DeviceRule {
    fn eq(&self, other: &DeviceRule) -> (r: bool) {
        self.vendor_id == other.vendor_id && self.product_id == other.product_id
            && self.device_class == other.device_class && opt_str_eq(
            &self.manufacturer,
            &other.manufacturer,
        ) && opt_str_eq(&self.product_name, &other.product_name) && opt_str_eq(
            &self.serial_number,
            &other.serial_number,
        ) && self.reason == other.reason && self.created_at == other.created_at && self.enabled
            == other.enabled
    }
}

impl vstd::std_specs::cmp::PartialEqSpecImpl for DeviceRule {
    open spec fn obeys_eq_spec() -> bool {
        true
    }

    open spec fn eq_spec(&self, other: &DeviceRule) -> bool {
        same_rule(*self, *other)
    }
}

/// A string matcher on an optional device string.
pub open spec fn text_matches(pattern: Option<String>, value: Option<String>) -> bool {
    match pattern {
        None => true,
        Some(p) => match value {
            Some(v) => contains_folded(v@, p@),
            None => false,
        },
    }
}

/// Every present matcher of the rule accepts the device.
pub open spec fn rule_matches(rule: DeviceRule, device: UsbDeviceInfo) -> bool {
    &&& (rule.vendor_id matches Some(v) ==> device.vendor_id == v)
    &&& (rule.product_id matches Some(p) ==> device.product_id == p)
    &&& (rule.device_class matches Some(c) ==> device.device_class == c)
    &&& text_matches(rule.manufacturer, device.manufacturer)
    &&& text_matches(rule.product_name, device.product)
    &&& text_matches(rule.serial_number, device.serial_number)
}

/// The rule is enabled and matches the device.
pub open spec fn rule_applies(rule: DeviceRule, device: UsbDeviceInfo) -> bool {
    rule.enabled && rule_matches(rule, device)
}

/// Some enabled rule of the list matches the device.
pub open spec fn any_applies(rules: Seq<DeviceRule>, device: UsbDeviceInfo) -> bool {
    exists|i: int| 0 <= i < rules.len() && #[trigger] rule_applies(rules[i], device)
}

/// The first enabled rule of the list that matches the device.
pub open spec fn first_applying(rules: Seq<DeviceRule>, device: UsbDeviceInfo) -> Option<
    DeviceRule,
>
    decreases rules.len(),
{
    if rules.len() == 0 {
        None
    } else if rule_applies(rules[0], device) {
        Some(rules[0])
    } else {
        first_applying(rules.drop_first(), device)
    }
}

fn text_matcher(pattern: &Option<String>, value: &Option<String>) -> (r: bool)
    ensures
        r == text_matches(*pattern, *value),
{
    match pattern {
        None => true,
        Some(p) => match value {
            Some(v) => contains_ignore_case(v.as_str(), p.as_str()),
            None => false,
        },
    }
}

impl DeviceRule {
    /// An enabled rule that matches every device, with an empty reason,
    /// created at `created_at` (milliseconds since the Unix epoch).
    pub fn new(created_at: i64) -> (r: Self)
        ensures
            r.created_at == created_at,
            r.vendor_id is None,
            r.product_id is None,
            r.device_class is None,
            r.manufacturer is None,
            r.product_name is None,
            r.serial_number is None,
            r.reason@.len() == 0,
            r.enabled,
    {
        DeviceRule {
            vendor_id: None,
            product_id: None,
            device_class: None,
            manufacturer: None,
            product_name: None,
            serial_number: None,
            reason: String::new(),
            created_at,
            enabled: true,
        }
    }

    pub fn matches_device(&self, device: &UsbDeviceInfo) -> (r: bool)
        ensures
            r == rule_matches(*self, *device),
    {
        if let Some(vid) = self.vendor_id {
            if device.vendor_id != vid {
                return false;
            }
        }
        if let Some(pid) = self.product_id {
            if device.product_id != pid {
                return false;
            }
        }
        if let Some(class) = self.device_class {
            if device.device_class != class {
                return false;
            }
        }
        if !text_matcher(&self.manufacturer, &device.manufacturer) {
            return false;
        }
        if !text_matcher(&self.product_name, &device.product) {
            return false;
        }
        text_matcher(&self.serial_number, &device.serial_number)
    }
}

/// Blacklist and whitelist policy.
#[derive(Debug)]
pub struct DeviceRulesConfig {
    pub blacklist_enabled: bool,
    pub whitelist_enabled: bool,
    pub blacklisted_devices: Vec<DeviceRule>,
    pub whitelisted_devices: Vec<DeviceRule>,
    pub auto_block_suspicious: bool,
    pub block_threshold: u32,
}

impl Clone for DeviceRulesConfig {
    fn clone(&self) -> (r: Self)
        ensures
            r.blacklist_enabled == self.blacklist_enabled,
            r.whitelist_enabled == self.whitelist_enabled,
            r.blacklisted_devices@ == self.blacklisted_devices@,
            r.whitelisted_devices@ == self.whitelisted_devices@,
            r.auto_block_suspicious == self.auto_block_suspicious,
            r.block_threshold == self.block_threshold,
    {
        DeviceRulesConfig {
            blacklist_enabled: self.blacklist_enabled,
            whitelist_enabled: self.whitelist_enabled,
            blacklisted_devices: clone_rules(&self.blacklisted_devices),
            whitelisted_devices: clone_rules(&self.whitelisted_devices),
            auto_block_suspicious: self.auto_block_suspicious,
            block_threshold: self.block_threshold,
        }
    }
}

fn clone_rules(rules: &Vec<DeviceRule>) -> (r: Vec<DeviceRule>)
    ensures
        r@ == rules@,
{
    let mut out: Vec<DeviceRule> = Vec::new();
    let mut i: usize = 0;
    while i < rules.len()
        invariant
            i <= rules.len(),
            out@ == rules@.subrange(0, i as int),
        decreases rules.len() - i,
    {
        out.push(rules[i].clone());
        i = i + 1;
        assert(out@ =~= rules@.subrange(0, i as int));
    }
    assert(out@ =~= rules@);
    out
}

/// The reason given to a device that whitelist mode turns away.
pub open spec fn not_whitelisted_reason() -> Seq<char> {
    "Device not in whitelist"@
}

/// Whitelist mode turns the device away: no enabled whitelist rule matches.
pub open spec fn refused_by_whitelist(cfg: DeviceRulesConfig, device: UsbDeviceInfo) -> bool {
    cfg.whitelist_enabled && !any_applies(cfg.whitelisted_devices@, device)
}

/// Whether the policy blocks the device: whitelist mode is consulted before
/// the blacklist.
pub open spec fn is_blocked(cfg: DeviceRulesConfig, device: UsbDeviceInfo) -> bool {
    refused_by_whitelist(cfg, device) || (cfg.blacklist_enabled && any_applies(
        cfg.blacklisted_devices@,
        device,
    ))
}

/// The reason given when the policy blocks the device.
pub open spec fn block_reason(cfg: DeviceRulesConfig, device: UsbDeviceInfo) -> Seq<char> {
    if refused_by_whitelist(cfg, device) {
        not_whitelisted_reason()
    } else {
        match first_applying(cfg.blacklisted_devices@, device) {
            Some(rule) => rule.reason@,
            None => Seq::empty(),
        }
    }
}

pub proof fn lemma_first_applying_pub(rules: Seq<DeviceRule>, device: UsbDeviceInfo)
    ensures
        first_applying(rules, device) is Some <==> any_applies(rules, device),
{
    lemma_first_applying(rules, device);
}

proof fn lemma_first_applying(rules: Seq<DeviceRule>, device: UsbDeviceInfo)
    ensures
        first_applying(rules, device) is Some <==> any_applies(rules, device),
    decreases rules.len(),
{
    if rules.len() > 0 {
        lemma_first_applying(rules.drop_first(), device);
        if any_applies(rules, device) && !rule_applies(rules[0], device) {
            let i = choose|i: int| 0 <= i < rules.len() && #[trigger] rule_applies(rules[i], device);
            assert(rule_applies(rules.drop_first()[i - 1], device));
        }
        if any_applies(rules.drop_first(), device) {
            let i = choose|i: int|
                0 <= i < rules.drop_first().len() && #[trigger] rule_applies(
                    rules.drop_first()[i],
                    device,
                );
            assert(rule_applies(rules[i + 1], device));
        }
        if rule_applies(rules[0], device) {
            assert(rule_applies(rules[0], device));
        }
    }
}

fn whitelist_admits(rules: &Vec<DeviceRule>, device: &UsbDeviceInfo) -> (r: bool)
    ensures
        r == any_applies(rules@, *device),
{
    let mut i: usize = 0;
    while i < rules.len()
        invariant
            i <= rules.len(),
            forall|k: int| 0 <= k < i ==> !#[trigger] rule_applies(rules@[k], *device),
        decreases rules.len() - i,
    {
        if rules[i].enabled && rules[i].matches_device(device) {
            assert(rule_applies(rules@[i as int], *device));
            return true;
        }
        i = i + 1;
    }
    false
}

/// The first enabled blacklist rule that matches, by index.
fn first_blacklist_hit(rules: &Vec<DeviceRule>, device: &UsbDeviceInfo) -> (r: Option<usize>)
    ensures
        match r {
            Some(i) => i < rules.len() && first_applying(rules@, *device) == Some(rules@[i as int]),
            None => first_applying(rules@, *device) is None,
        },
{
    let mut i: usize = 0;
    assert(rules@.subrange(0, rules.len() as int) =~= rules@);
    while i < rules.len()
        invariant
            i <= rules.len(),
            first_applying(rules@, *device) == first_applying(
                rules@.subrange(i as int, rules.len() as int),
                *device,
            ),
        decreases rules.len() - i,
    {
        let ghost rest = rules@.subrange(i as int, rules.len() as int);
        assert(rest[0] == rules@[i as int]);
        if rules[i].enabled && rules[i].matches_device(device) {
            return Some(i);
        }
        assert(rest.drop_first() =~= rules@.subrange(i + 1, rules.len() as int));
        i = i + 1;
    }
    None
}

impl DeviceRulesConfig {
    /// Blacklist on, whitelist off, no rules.
    pub fn new() -> (r: Self)
        ensures
            r.blacklist_enabled,
            !r.whitelist_enabled,
            r.blacklisted_devices@.len() == 0,
            r.whitelisted_devices@.len() == 0,
            !r.auto_block_suspicious,
            r.block_threshold == 5,
    {
        DeviceRulesConfig {
            blacklist_enabled: true,
            whitelist_enabled: false,
            blacklisted_devices: Vec::new(),
            whitelisted_devices: Vec::new(),
            auto_block_suspicious: false,
            block_threshold: 5,
        }
    }

    /// Whether the device is to be blocked, and why.
    pub fn should_block_device(&self, device: &UsbDeviceInfo) -> (r: (bool, Option<String>))
        ensures
            r.0 == is_blocked(*self, *device),
            r.1 is Some <==> r.0,
            r.1 matches Some(s) ==> s@ == block_reason(*self, *device),
    {
        if self.whitelist_enabled {
            if !whitelist_admits(&self.whitelisted_devices, device) {
                return (true, Some(String::from_str("Device not in whitelist")));
            }
        }
        if self.blacklist_enabled {
            let hit = first_blacklist_hit(&self.blacklisted_devices, device);
            proof {
                lemma_first_applying(self.blacklisted_devices@, *device);
            }
            if let Some(i) = hit {
                return (true, Some(self.blacklisted_devices[i].reason.clone()));
            }
        }
        proof {
            lemma_first_applying(self.blacklisted_devices@, *device);
        }
        (false, None)
    }
}

/// Whitelist precedence: with whitelist mode on, a device that no enabled
/// whitelist rule matches is blocked as not whitelisted, whatever the
/// blacklist holds or whether it is enabled.
pub proof fn lemma_whitelist_precedence(cfg: DeviceRulesConfig, device: UsbDeviceInfo)
    requires
        cfg.whitelist_enabled,
        !any_applies(cfg.whitelisted_devices@, device),
    ensures
        is_blocked(cfg, device),
        block_reason(cfg, device) == not_whitelisted_reason(),
{
}

// ---- application configuration ----

#[derive(Debug, Clone, Copy, PartialEq, Eq, Structural)]
pub struct MonitoringConfig {
    pub poll_interval_ms: u64,
    pub auto_start: bool,
    pub track_input_events: bool,
    pub detect_suspicious_activity: bool,
}

#[derive(Debug, Clone)]
pub struct OutputConfig {
    pub default_format: String,
    pub timestamp_format: String,
    pub include_metadata: bool,
    pub color_output: bool,
    pub max_log_entries: usize,
}

#[derive(Debug, Clone)]
pub struct LoggingConfig {
    pub level: String,
    pub file_logging: bool,
    pub log_file_path: Option<String>,
    pub max_log_file_size_mb: u64,
    pub rotate_logs: bool,
}

#[derive(Debug, Clone)]
pub struct FilterConfig {
    pub ignored_vendors: Vec<u16>,
    pub ignored_products: Vec<u16>,
    pub allowed_device_classes: Option<Vec<u8>>,
    pub name_patterns: Vec<String>,
}

/// The whole configuration.
#[derive(Debug)]
pub struct Config {
    pub monitoring: MonitoringConfig,
    pub output: OutputConfig,
    pub logging: LoggingConfig,
    pub filters: FilterConfig,
    pub device_rules: DeviceRulesConfig,
}

/// The configuration a fresh install starts from.
pub open spec fn is_default_config(r: Config) -> bool {
    &&& r.monitoring == (MonitoringConfig {
        poll_interval_ms: 500,
        auto_start: false,
        track_input_events: true,
        detect_suspicious_activity: true,
    })
    &&& r.output.default_format@ == "table"@
    &&& r.output.timestamp_format@ == "%Y-%m-%d %H:%M:%S UTC"@
    &&& r.output.include_metadata
    &&& r.output.color_output
    &&& r.output.max_log_entries == 1000
    &&& r.logging.level@ == "info"@
    &&& !r.logging.file_logging
    &&& r.logging.log_file_path is None
    &&& r.logging.max_log_file_size_mb == 10
    &&& r.logging.rotate_logs
    &&& r.filters.ignored_vendors@.len() == 0
    &&& r.filters.ignored_products@.len() == 0
    &&& r.filters.allowed_device_classes is None
    &&& r.filters.name_patterns@.len() == 0
    &&& r.device_rules.blacklist_enabled
    &&& !r.device_rules.whitelist_enabled
    &&& r.device_rules.blacklisted_devices@.len() == 0
    &&& r.device_rules.whitelisted_devices@.len() == 0
    &&& !r.device_rules.auto_block_suspicious
    &&& r.device_rules.block_threshold == 5
}

impl Default for Config {
    fn default() -> (r: Self)
        ensures
            is_default_config(r),
    {
        Config {
            monitoring: MonitoringConfig {
                poll_interval_ms: 500,
                auto_start: false,
                track_input_events: true,
                detect_suspicious_activity: true,
            },
            output: OutputConfig {
                default_format: String::from_str("table"),
                timestamp_format: String::from_str("%Y-%m-%d %H:%M:%S UTC"),
                include_metadata: true,
                color_output: true,
                max_log_entries: 1000,
            },
            logging: LoggingConfig {
                level: String::from_str("info"),
                file_logging: false,
                log_file_path: None,
                max_log_file_size_mb: 10,
                rotate_logs: true,
            },
            filters: FilterConfig {
                ignored_vendors: Vec::new(),
                ignored_products: Vec::new(),
                allowed_device_classes: None,
                name_patterns: Vec::new(),
            },
            device_rules: DeviceRulesConfig::new(),
        }
    }
}

/// The settable keys.
#[derive(Debug, Clone, Copy, PartialEq, Eq, Structural)]
pub enum ConfigKey {
    PollIntervalMs,
    AutoStart,
    TrackInputEvents,
    DetectSuspiciousActivity,
    DefaultFormat,
    ColorOutput,
    IncludeMetadata,
    LogLevel,
    FileLogging,
}

pub open spec fn key_of(k: Seq<char>) -> Option<ConfigKey> {
    if k == "monitoring.poll_interval_ms"@ {
        Some(ConfigKey::PollIntervalMs)
    } else if k == "monitoring.auto_start"@ {
        Some(ConfigKey::AutoStart)
    } else if k == "monitoring.track_input_events"@ {
        Some(ConfigKey::TrackInputEvents)
    } else if k == "monitoring.detect_suspicious_activity"@ {
        Some(ConfigKey::DetectSuspiciousActivity)
    } else if k == "output.default_format"@ {
        Some(ConfigKey::DefaultFormat)
    } else if k == "output.color_output"@ {
        Some(ConfigKey::ColorOutput)
    } else if k == "output.include_metadata"@ {
        Some(ConfigKey::IncludeMetadata)
    } else if k == "logging.level"@ {
        Some(ConfigKey::LogLevel)
    } else if k == "logging.file_logging"@ {
        Some(ConfigKey::FileLogging)
    } else {
        None
    }
}

fn parse_key(k: &str) -> (r: Option<ConfigKey>)
    ensures
        r == key_of(k@),
{
    if str_eq(k, "monitoring.poll_interval_ms") {
        Some(ConfigKey::PollIntervalMs)
    } else if str_eq(k, "monitoring.auto_start") {
        Some(ConfigKey::AutoStart)
    } else if str_eq(k, "monitoring.track_input_events") {
        Some(ConfigKey::TrackInputEvents)
    } else if str_eq(k, "monitoring.detect_suspicious_activity") {
        Some(ConfigKey::DetectSuspiciousActivity)
    } else if str_eq(k, "output.default_format") {
        Some(ConfigKey::DefaultFormat)
    } else if str_eq(k, "output.color_output") {
        Some(ConfigKey::ColorOutput)
    } else if str_eq(k, "output.include_metadata") {
        Some(ConfigKey::IncludeMetadata)
    } else if str_eq(k, "logging.level") {
        Some(ConfigKey::LogLevel)
    } else if str_eq(k, "logging.file_logging") {
        Some(ConfigKey::FileLogging)
    } else {
        None
    }
}

/// One of the three output formats.
pub open spec fn is_format(v: Seq<char>) -> bool {
    v == "json"@ || v == "table"@ || v == "csv"@
}

/// One of the five log levels.
pub open spec fn is_level(v: Seq<char>) -> bool {
    v == "error"@ || v == "warn"@ || v == "info"@ || v == "debug"@ || v == "trace"@
}

fn format_ok(v: &str) -> (r: bool)
    ensures
        r == is_format(v@),
{
    str_eq(v, "json") || str_eq(v, "table") || str_eq(v, "csv")
}

fn level_ok(v: &str) -> (r: bool)
    ensures
        r == is_level(v@),
{
    str_eq(v, "error") || str_eq(v, "warn") || str_eq(v, "info") || str_eq(v, "debug") || str_eq(
        v,
        "trace",
    )
}

/// `v` is a valid value for the key.
pub open spec fn value_ok(k: ConfigKey, v: Seq<char>) -> bool {
    match k {
        ConfigKey::PollIntervalMs => parse_u64_spec(v) is Some,
        ConfigKey::DefaultFormat => is_format(v),
        ConfigKey::LogLevel => is_level(v),
        _ => parse_bool_spec(v) is Some,
    }
}

/// `new` is `old` with the key set to `v` and nothing else changed.
pub open spec fn config_set(old: Config, new: Config, k: ConfigKey, v: Seq<char>) -> bool {
    match k {
        ConfigKey::PollIntervalMs => new == Config {
            monitoring: MonitoringConfig { poll_interval_ms: parse_u64_spec(v)->0, ..old.monitoring },
            ..old
        },
        ConfigKey::AutoStart => new == Config {
            monitoring: MonitoringConfig { auto_start: parse_bool_spec(v)->0, ..old.monitoring },
            ..old
        },
        ConfigKey::TrackInputEvents => new == Config {
            monitoring: MonitoringConfig {
                track_input_events: parse_bool_spec(v)->0,
                ..old.monitoring
            },
            ..old
        },
        ConfigKey::DetectSuspiciousActivity => new == Config {
            monitoring: MonitoringConfig {
                detect_suspicious_activity: parse_bool_spec(v)->0,
                ..old.monitoring
            },
            ..old
        },
        ConfigKey::DefaultFormat => new.output.default_format@ == v && new == Config {
            output: OutputConfig { default_format: new.output.default_format, ..old.output },
            ..old
        },
        ConfigKey::ColorOutput => new == Config {
            output: OutputConfig { color_output: parse_bool_spec(v)->0, ..old.output },
            ..old
        },
        ConfigKey::IncludeMetadata => new == Config {
            output: OutputConfig { include_metadata: parse_bool_spec(v)->0, ..old.output },
            ..old
        },
        ConfigKey::LogLevel => new.logging.level@ == v && new == Config {
            logging: LoggingConfig { level: new.logging.level, ..old.logging },
            ..old
        },
        ConfigKey::FileLogging => new == Config {
            logging: LoggingConfig { file_logging: parse_bool_spec(v)->0, ..old.logging },
            ..old
        },
    }
}

/// The text `get_value` returns for a key.
pub open spec fn config_get(c: Config, k: ConfigKey) -> Seq<char> {
    let b = |x: bool| if x { "true"@ } else { "false"@ };
    match k {
        ConfigKey::PollIntervalMs => decimal(c.monitoring.poll_interval_ms as nat),
        ConfigKey::AutoStart => b(c.monitoring.auto_start),
        ConfigKey::TrackInputEvents => b(c.monitoring.track_input_events),
        ConfigKey::DetectSuspiciousActivity => b(c.monitoring.detect_suspicious_activity),
        ConfigKey::DefaultFormat => c.output.default_format@,
        ConfigKey::ColorOutput => b(c.output.color_output),
        ConfigKey::IncludeMetadata => b(c.output.include_metadata),
        ConfigKey::LogLevel => c.logging.level@,
        ConfigKey::FileLogging => b(c.logging.file_logging),
    }
}

/// The first problem `validate` reports, if any.
pub open spec fn validation_problem(c: Config) -> Option<Seq<char>> {
    if c.monitoring.poll_interval_ms < 100 {
        Some("Poll interval must be at least 100ms"@)
    } else if !is_format(c.output.default_format@) {
        Some("Invalid default output format"@)
    } else if !is_level(c.logging.level@) {
        Some("Invalid log level"@)
    } else {
        None
    }
}

/// Some rule of the list is the same rule as `rule`.
pub open spec fn holds_rule(rules: Seq<DeviceRule>, rule: DeviceRule) -> bool {
    exists|i: int| 0 <= i < rules.len() && #[trigger] same_rule(rules[i], rule)
}

fn contains_rule(rules: &Vec<DeviceRule>, rule: &DeviceRule) -> (r: bool)
    ensures
        r == holds_rule(rules@, *rule),
{
    let mut i: usize = 0;
    while i < rules.len()
        invariant
            i <= rules.len(),
            forall|k: int| 0 <= k < i ==> !#[trigger] same_rule(rules@[k], *rule),
        decreases rules.len() - i,
    {
        if rules[i] == *rule {
            assert(same_rule(rules@[i as int], *rule));
            return true;
        }
        i = i + 1;
    }
    false
}

pub open spec fn validation_error(e: ConfigError, text: Seq<char>) -> bool {
    e matches ConfigError::ValidationFailed(m) && m@ == text
}

/// The call failed with a validation error carrying this text.
pub open spec fn fails_with(r: Result<(), ConfigError>, text: Seq<char>) -> bool {
    r matches Err(e) && validation_error(e, text)
}

/// `new` differs from `old` at most in the blacklist's rules.
pub open spec fn only_blacklist_changed(old: Config, new: Config) -> bool {
    new == Config {
        device_rules: DeviceRulesConfig {
            blacklisted_devices: new.device_rules.blacklisted_devices,
            ..old.device_rules
        },
        ..old
    }
}

/// `new` differs from `old` at most in the whitelist's rules.
pub open spec fn only_whitelist_changed(old: Config, new: Config) -> bool {
    new == Config {
        device_rules: DeviceRulesConfig {
            whitelisted_devices: new.device_rules.whitelisted_devices,
            ..old.device_rules
        },
        ..old
    }
}

/// Configuration with the path it is stored at.
#[derive(Debug)]
pub struct ConfigManager {
    config: Config,
    config_path: String,
}

impl ConfigManager {
    pub closed spec fn cfg(&self) -> Config {
        self.config
    }

    pub closed spec fn path(&self) -> String {
        self.config_path
    }

    pub fn new(config: Config, config_path: String) -> (r: Self)
        ensures
            r.cfg() == config,
            r.path() == config_path,
    {
        ConfigManager { config, config_path }
    }

    pub fn get_config(&self) -> (r: &Config)
        ensures
            *r == self.cfg(),
    {
        &self.config
    }

    pub fn get_config_mut(&mut self) -> (r: &mut Config)
        ensures
            *r == old(self).cfg(),
            final(self).cfg() == *final(r),
            final(self).path() == old(self).path(),
    {
        &mut self.config
    }

    pub fn get_config_path(&self) -> (r: &String)
        ensures
            *r == self.path(),
    {
        &self.config_path
    }

    /// Sets one key from its text. An unknown key gives `InvalidKey(key)`,
    /// a value that does not parse or is not allowed for the key gives
    /// `InvalidValue(key, value)`; either way nothing changes.
    pub fn set_value(&mut self, key_path: &str, value: &str) -> (r: Result<(), ConfigError>)
        ensures
            final(self).path() == old(self).path(),
            match key_of(key_path@) {
                None => r matches Err(ConfigError::InvalidKey(k)) && k@ == key_path@
                    && final(self).cfg() == old(self).cfg(),
                Some(k) => if value_ok(k, value@) {
                    r is Ok && config_set(old(self).cfg(), final(self).cfg(), k, value@)
                } else {
                    r matches Err(ConfigError::InvalidValue(a, b)) && a@ == key_path@ && b@
                        == value@ && final(self).cfg() == old(self).cfg()
                },
            },
    {
        let key = match parse_key(key_path) {
            Some(k) => k,
            None => {
                return Err(ConfigError::InvalidKey(String::from_str(key_path)));
            },
        };
        let bad = ConfigError::InvalidValue(String::from_str(key_path), String::from_str(value));
        match key {
            ConfigKey::PollIntervalMs => match parse_u64(value) {
                Some(n) => {
                    self.config.monitoring.poll_interval_ms = n;
                },
                None => {
                    return Err(bad);
                },
            },
            ConfigKey::DefaultFormat => {
                if !format_ok(value) {
                    return Err(bad);
                }
                self.config.output.default_format = String::from_str(value);
            },
            ConfigKey::LogLevel => {
                if !level_ok(value) {
                    return Err(bad);
                }
                self.config.logging.level = String::from_str(value);
            },
            _ => {
                let b = match parse_bool(value) {
                    Some(b) => b,
                    None => {
                        return Err(bad);
                    },
                };
                match key {
                    ConfigKey::AutoStart => {
                        self.config.monitoring.auto_start = b;
                    },
                    ConfigKey::TrackInputEvents => {
                        self.config.monitoring.track_input_events = b;
                    },
                    ConfigKey::DetectSuspiciousActivity => {
                        self.config.monitoring.detect_suspicious_activity = b;
                    },
                    ConfigKey::ColorOutput => {
                        self.config.output.color_output = b;
                    },
                    ConfigKey::IncludeMetadata => {
                        self.config.output.include_metadata = b;
                    },
                    _ => {
                        self.config.logging.file_logging = b;
                    },
                }
            },
        }
        Ok(())
    }

    /// The text of one key, or `InvalidKey(key)`.
    pub fn get_value(&self, key_path: &str) -> (r: Result<String, ConfigError>)
        ensures
            match key_of(key_path@) {
                None => r matches Err(ConfigError::InvalidKey(k)) && k@ == key_path@,
                Some(k) => r matches Ok(s) && s@ == config_get(self.cfg(), k),
            },
    {
        let key = match parse_key(key_path) {
            Some(k) => k,
            None => {
                return Err(ConfigError::InvalidKey(String::from_str(key_path)));
            },
        };
        let c = &self.config;
        let s = match key {
            ConfigKey::PollIntervalMs => decimal_string(c.monitoring.poll_interval_ms),
            ConfigKey::AutoStart => bool_string(c.monitoring.auto_start),
            ConfigKey::TrackInputEvents => bool_string(c.monitoring.track_input_events),
            ConfigKey::DetectSuspiciousActivity => bool_string(c.monitoring.detect_suspicious_activity),
            ConfigKey::DefaultFormat => c.output.default_format.clone(),
            ConfigKey::ColorOutput => bool_string(c.output.color_output),
            ConfigKey::IncludeMetadata => bool_string(c.output.include_metadata),
            ConfigKey::LogLevel => c.logging.level.clone(),
            ConfigKey::FileLogging => bool_string(c.logging.file_logging),
        };
        Ok(s)
    }

    pub fn reset_to_defaults(&mut self)
        ensures
            final(self).path() == old(self).path(),
            is_default_config(final(self).cfg()),
    {
        self.config = Config::default();
    }

    /// Checks the poll interval (at least 100 ms), the output format and the
    /// log level, in that order.
    pub fn validate(&self) -> (r: Result<(), ConfigError>)
        ensures
            match validation_problem(self.cfg()) {
                None => r is Ok,
                Some(t) => fails_with(r, t),
            },
    {
        if self.config.monitoring.poll_interval_ms < 100 {
            return Err(
                ConfigError::ValidationFailed(String::from_str("Poll interval must be at least 100ms")),
            );
        }
        if !format_ok(self.config.output.default_format.as_str()) {
            return Err(ConfigError::ValidationFailed(String::from_str("Invalid default output format")));
        }
        if !level_ok(self.config.logging.level.as_str()) {
            return Err(ConfigError::ValidationFailed(String::from_str("Invalid log level")));
        }
        Ok(())
    }

    /// Appends a rule to the blacklist; refused while the blacklist is off or
    /// when the same rule is already there.
    pub fn add_blacklisted_device(&mut self, rule: DeviceRule) -> (r: Result<(), ConfigError>)
        ensures
            final(self).path() == old(self).path(),
            only_blacklist_changed(old(self).cfg(), final(self).cfg()),
            !old(self).cfg().device_rules.blacklist_enabled ==> fails_with(r, "Blacklist is not enabled"@) && final(self).cfg() == old(self).cfg(),
            old(self).cfg().device_rules.blacklist_enabled && holds_rule(
                old(self).cfg().device_rules.blacklisted_devices@,
                rule,
            ) ==> fails_with(r, "Device is already blacklisted"@)
                && final(self).cfg() == old(self).cfg(),
            old(self).cfg().device_rules.blacklist_enabled && !holds_rule(
                old(self).cfg().device_rules.blacklisted_devices@,
                rule,
            ) ==> r is Ok && final(self).cfg().device_rules.blacklisted_devices@ == old(self).cfg().device_rules.blacklisted_devices@.push(rule),
    {
        if !self.config.device_rules.blacklist_enabled {
            return Err(ConfigError::ValidationFailed(String::from_str("Blacklist is not enabled")));
        }
        if contains_rule(&self.config.device_rules.blacklisted_devices, &rule) {
            return Err(ConfigError::ValidationFailed(String::from_str("Device is already blacklisted")));
        }
        self.config.device_rules.blacklisted_devices.push(rule);
        Ok(())
    }

    /// Removes the blacklist rule at `index`, or fails when there is none.
    pub fn remove_blacklisted_device(&mut self, index: usize) -> (r: Result<(), ConfigError>)
        ensures
            final(self).path() == old(self).path(),
            only_blacklist_changed(old(self).cfg(), final(self).cfg()),
            index >= old(self).cfg().device_rules.blacklisted_devices@.len() ==> fails_with(r, "Invalid blacklist index"@) && final(self).cfg() == old(self).cfg(),
            index < old(self).cfg().device_rules.blacklisted_devices@.len() ==> r is Ok && final(self).cfg().device_rules.blacklisted_devices@ == old(self).cfg().device_rules.blacklisted_devices@.remove(index as int),
    {
        if index >= self.config.device_rules.blacklisted_devices.len() {
            return Err(ConfigError::ValidationFailed(String::from_str("Invalid blacklist index")));
        }
        self.config.device_rules.blacklisted_devices.remove(index);
        Ok(())
    }

    /// Appends a rule to the whitelist; refused while the whitelist is off or
    /// when the same rule is already there.
    pub fn add_whitelisted_device(&mut self, rule: DeviceRule) -> (r: Result<(), ConfigError>)
        ensures
            final(self).path() == old(self).path(),
            only_whitelist_changed(old(self).cfg(), final(self).cfg()),
            !old(self).cfg().device_rules.whitelist_enabled ==> fails_with(r, "Whitelist is not enabled"@) && final(self).cfg() == old(self).cfg(),
            old(self).cfg().device_rules.whitelist_enabled && holds_rule(
                old(self).cfg().device_rules.whitelisted_devices@,
                rule,
            ) ==> fails_with(r, "Device is already whitelisted"@)
                && final(self).cfg() == old(self).cfg(),
            old(self).cfg().device_rules.whitelist_enabled && !holds_rule(
                old(self).cfg().device_rules.whitelisted_devices@,
                rule,
            ) ==> r is Ok && final(self).cfg().device_rules.whitelisted_devices@ == old(self).cfg().device_rules.whitelisted_devices@.push(rule),
    {
        if !self.config.device_rules.whitelist_enabled {
            return Err(ConfigError::ValidationFailed(String::from_str("Whitelist is not enabled")));
        }
        if contains_rule(&self.config.device_rules.whitelisted_devices, &rule) {
            return Err(ConfigError::ValidationFailed(String::from_str("Device is already whitelisted")));
        }
        self.config.device_rules.whitelisted_devices.push(rule);
        Ok(())
    }

    /// Removes the whitelist rule at `index`, or fails when there is none.
    pub fn remove_whitelisted_device(&mut self, index: usize) -> (r: Result<(), ConfigError>)
        ensures
            final(self).path() == old(self).path(),
            only_whitelist_changed(old(self).cfg(), final(self).cfg()),
            index >= old(self).cfg().device_rules.whitelisted_devices@.len() ==> fails_with(r, "Invalid whitelist index"@) && final(self).cfg() == old(self).cfg(),
            index < old(self).cfg().device_rules.whitelisted_devices@.len() ==> r is Ok && final(self).cfg().device_rules.whitelisted_devices@ == old(self).cfg().device_rules.whitelisted_devices@.remove(index as int),
    {
        if index >= self.config.device_rules.whitelisted_devices.len() {
            return Err(ConfigError::ValidationFailed(String::from_str("Invalid whitelist index")));
        }
        self.config.device_rules.whitelisted_devices.remove(index);
        Ok(())
    }

    /// Whether the configured policy blocks the device, and why.
    pub fn should_block_device(&self, device: &UsbDeviceInfo) -> (r: (bool, Option<String>))
        ensures
            r.0 == is_blocked(self.cfg().device_rules, *device),
            r.1 is Some <==> r.0,
            r.1 matches Some(s) ==> s@ == block_reason(self.cfg().device_rules, *device),
    {
        self.config.device_rules.should_block_device(device)
    }

    pub fn set_blacklist_enabled(&mut self, enabled: bool)
        ensures
            final(self).path() == old(self).path(),
            final(self).cfg() == (Config {
                device_rules: DeviceRulesConfig {
                    blacklist_enabled: enabled,
                    ..old(self).cfg().device_rules
                },
                ..old(self).cfg()
            }),
    {
        self.config.device_rules.blacklist_enabled = enabled;
    }

    pub fn set_whitelist_enabled(&mut self, enabled: bool)
        ensures
            final(self).path() == old(self).path(),
            final(self).cfg() == (Config {
                device_rules: DeviceRulesConfig {
                    whitelist_enabled: enabled,
                    ..old(self).cfg().device_rules
                },
                ..old(self).cfg()
            }),
    {
        self.config.device_rules.whitelist_enabled = enabled;
    }

    pub fn get_blacklisted_devices(&self) -> (r: &[DeviceRule])
        ensures
            r@ == self.cfg().device_rules.blacklisted_devices@,
    {
        self.config.device_rules.blacklisted_devices.as_slice()
    }

    pub fn get_whitelisted_devices(&self) -> (r: &[DeviceRule])
        ensures
            r@ == self.cfg().device_rules.whitelisted_devices@,
    {
        self.config.device_rules.whitelisted_devices.as_slice()
    }
}

} // verus!
