use ironwatch::cli::{log_level_for_verbosity, CliConfig, OutputFormat};
use ironwatch::config::{Config, ConfigManager, DeviceRule};
use ironwatch::error::{
    get_user_friendly_message, BusErrorKind, ConfigError, ErrorContext, GuiError, IronWatchError,
    UsbError,
};
use ironwatch::text::{contains_ignore_case, decimal_string, parse_bool, parse_u64};

fn manager() -> ConfigManager {
    ConfigManager::new(Config::default(), "/tmp/ironwatch/config.json".to_string())
}

#[test]
fn defaults() {
    let c = Config::default();
    assert_eq!(c.monitoring.poll_interval_ms, 500);
    assert_eq!(c.output.default_format, "table");
    assert_eq!(c.logging.level, "info");
    assert!(c.device_rules.blacklist_enabled);
    assert!(!c.device_rules.whitelist_enabled);
    assert!(manager().validate().is_ok());
}

#[test]
fn set_and_get_values() {
    let mut m = manager();
    assert!(m.set_value("monitoring.poll_interval_ms", "250").is_ok());
    assert_eq!(m.get_value("monitoring.poll_interval_ms").unwrap(), "250");
    assert!(m.set_value("monitoring.auto_start", "true").is_ok());
    assert_eq!(m.get_value("monitoring.auto_start").unwrap(), "true");
    assert!(m.set_value("output.default_format", "csv").is_ok());
    assert_eq!(m.get_value("output.default_format").unwrap(), "csv");
    assert!(m.set_value("logging.level", "trace").is_ok());
    assert_eq!(m.get_value("logging.level").unwrap(), "trace");
    assert!(m.set_value("logging.file_logging", "false").is_ok());
    assert_eq!(m.get_value("logging.file_logging").unwrap(), "false");
    assert_eq!(m.get_config_path(), "/tmp/ironwatch/config.json");
}

#[test]
fn set_value_errors_leave_config_alone() {
    let mut m = manager();
    match m.set_value("monitoring.poll_interval_ms", "fast") {
        Err(ConfigError::InvalidValue(k, v)) => {
            assert_eq!(k, "monitoring.poll_interval_ms");
            assert_eq!(v, "fast");
        }
        other => panic!("unexpected {:?}", other),
    }
    assert!(matches!(m.set_value("output.default_format", "xml"), Err(ConfigError::InvalidValue(_, _))));
    assert!(matches!(m.set_value("logging.level", "loud"), Err(ConfigError::InvalidValue(_, _))));
    assert!(matches!(m.set_value("output.color_output", "yes"), Err(ConfigError::InvalidValue(_, _))));
    assert!(matches!(m.set_value("nope", "1"), Err(ConfigError::InvalidKey(k)) if k == "nope"));
    assert!(matches!(m.get_value("nope"), Err(ConfigError::InvalidKey(_))));
    assert_eq!(m.get_value("monitoring.poll_interval_ms").unwrap(), "500");
    assert_eq!(m.get_value("output.default_format").unwrap(), "table");
}

#[test]
fn validate_reports_first_problem() {
    let mut m = manager();
    m.set_value("monitoring.poll_interval_ms", "99").unwrap();
    assert!(matches!(m.validate(), Err(ConfigError::ValidationFailed(t)) if t == "Poll interval must be at least 100ms"));
    m.set_value("monitoring.poll_interval_ms", "100").unwrap();
    m.get_config_mut().output.default_format = "xml".to_string();
    assert!(matches!(m.validate(), Err(ConfigError::ValidationFailed(t)) if t == "Invalid default output format"));
    m.get_config_mut().output.default_format = "json".to_string();
    m.get_config_mut().logging.level = "loud".to_string();
    assert!(matches!(m.validate(), Err(ConfigError::ValidationFailed(t)) if t == "Invalid log level"));
    m.reset_to_defaults();
    assert!(m.validate().is_ok());
}

#[test]
fn rule_lists() {
    let mut m = manager();
    let mut rule = DeviceRule::new(0);
    rule.vendor_id = Some(0x1234);
    rule.reason = "test".to_string();
    assert!(m.add_blacklisted_device(rule.clone()).is_ok());
    assert!(matches!(m.add_blacklisted_device(rule.clone()), Err(ConfigError::ValidationFailed(t)) if t == "Device is already blacklisted"));
    assert_eq!(m.get_blacklisted_devices().len(), 1);
    assert!(matches!(m.remove_blacklisted_device(3), Err(ConfigError::ValidationFailed(t)) if t == "Invalid blacklist index"));
    assert!(m.remove_blacklisted_device(0).is_ok());
    assert!(m.get_blacklisted_devices().is_empty());

    assert!(matches!(m.add_whitelisted_device(rule.clone()), Err(ConfigError::ValidationFailed(t)) if t == "Whitelist is not enabled"));
    m.set_whitelist_enabled(true);
    assert!(m.add_whitelisted_device(rule.clone()).is_ok());
    assert!(matches!(m.add_whitelisted_device(rule.clone()), Err(ConfigError::ValidationFailed(t)) if t == "Device is already whitelisted"));
    assert!(matches!(m.remove_whitelisted_device(1), Err(ConfigError::ValidationFailed(t)) if t == "Invalid whitelist index"));
    assert!(m.remove_whitelisted_device(0).is_ok());
    assert!(m.get_whitelisted_devices().is_empty());

    m.set_blacklist_enabled(false);
    assert!(matches!(m.add_blacklisted_device(rule), Err(ConfigError::ValidationFailed(t)) if t == "Blacklist is not enabled"));
}

#[test]
fn text_helpers() {
    assert!(contains_ignore_case("Logitech Mouse", "logitech"));
    assert!(contains_ignore_case("Logitech Mouse", "MOUSE"));
    assert!(contains_ignore_case("anything", ""));
    assert!(!contains_ignore_case("Generic Keyboard", "logitech"));
    assert_eq!(parse_u64("+5"), Some(5));
    assert_eq!(parse_u64("18446744073709551615"), Some(u64::MAX));
    assert_eq!(parse_u64("18446744073709551616"), None);
    assert_eq!(parse_u64(""), None);
    assert_eq!(parse_u64("+"), None);
    assert_eq!(parse_u64("-1"), None);
    assert_eq!(parse_bool("true"), Some(true));
    assert_eq!(parse_bool("False"), None);
    assert_eq!(decimal_string(0), "0");
    assert_eq!(decimal_string(1234), "1234");
}

#[test]
fn error_messages() {
    let e = UsbError::device_access_denied(0x046d, 0xc52b);
    assert_eq!(e.message(), "USB Error: Access denied to device 046d:c52b");
    let (msg, hint) = get_user_friendly_message(&e);
    assert_eq!(msg, "Cannot access USB device 046d:c52b");
    assert!(hint.unwrap().contains("administrator"));
    let (msg, hint) = get_user_friendly_message(&UsbError::initialization_failed("x"));
    assert_eq!(msg, "Failed to initialize USB monitoring");
    assert!(hint.is_some());
    let (msg, _) = get_user_friendly_message(&IronWatchError::PermissionError("p".to_string()));
    assert_eq!(msg, "Insufficient permissions for USB access");
    let (msg, _) = get_user_friendly_message(&ConfigError::file_not_found("/x"));
    assert_eq!(msg, "Configuration file not found");
    let (msg, hint) = get_user_friendly_message(&GuiError::communication_error("closed"));
    assert_eq!(msg, "GUI Error: GUI communication error: closed");
    assert!(hint.is_none());
    assert_eq!(
        ConfigError::validation_failed("bad").message(),
        "Configuration Error: Configuration validation failed: bad"
    );
    assert_eq!(
        UsbError::monitoring_failed("m").message(),
        "USB Error: USB monitoring failed: m"
    );
    assert_eq!(
        GuiError::initialization_failed("g").message(),
        "GUI Error: GUI initialization failed: g"
    );
    assert_eq!(
        ConfigError::InvalidValue("k".to_string(), "v".to_string()).message(),
        "Invalid value 'v' for key 'k'"
    );
}

#[test]
fn bus_error_classification_and_context() {
    assert!(matches!(
        IronWatchError::from_bus_error(BusErrorKind::Access, String::new()),
        IronWatchError::UsbError(UsbError::DeviceAccessDenied(0, 0))
    ));
    assert!(matches!(
        IronWatchError::from_bus_error(BusErrorKind::NotFound, String::new()),
        IronWatchError::UsbError(UsbError::NoDevicesFound)
    ));
    assert!(matches!(
        IronWatchError::from_bus_error(BusErrorKind::Other, "pipe".to_string()),
        IronWatchError::UsbError(UsbError::EnumerationFailed(t)) if t == "pipe"
    ));
    let r: Result<(), IronWatchError> = Err(UsbError::monitoring_failed("x"));
    match r.with_context("scan") {
        Err(IronWatchError::UsbError(UsbError::MonitoringFailed(t))) => {
            assert_eq!(t, "scan: USB monitoring failed: x")
        }
        other => panic!("unexpected {:?}", other),
    }
    let r: Result<(), IronWatchError> = Err(IronWatchError::PermissionError("p".to_string()));
    assert!(matches!(r.with_context("scan"), Err(IronWatchError::PermissionError(_))));
}

#[test]
fn cli_defaults_and_choices() {
    let c = CliConfig::default();
    assert!(!c.monitor_mode);
    assert_eq!(c.output_format, OutputFormat::Table);
    assert_eq!(c.log_level, "info");
    assert_eq!(log_level_for_verbosity(0), "info");
    assert_eq!(log_level_for_verbosity(1), "debug");
    assert_eq!(log_level_for_verbosity(5), "trace");
    assert_eq!(OutputFormat::from_name("json"), OutputFormat::Json);
    assert_eq!(OutputFormat::from_name("csv"), OutputFormat::Csv);
    assert_eq!(OutputFormat::from_name("other"), OutputFormat::Table);
}
