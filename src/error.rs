use vstd::prelude::*;
use vstd::string::StringExecFns;

verus! {

/// Errors of the application.
#[derive(Debug)]
pub enum IronWatchError {
    UsbError(UsbError),
    ConfigError(ConfigError),
    GuiError(GuiError),
    TrayError(TrayError),
    /// An I/O failure, by its message.
    IoError(String),
    PermissionError(String),
}

#[derive(Debug)]
pub enum UsbError {
    InitializationFailed(String),
    NoDevicesFound,
    /// Vendor id and product id of the device.
    DeviceAccessDenied(u16, u16),
    DescriptorReadFailed(String),
    MonitoringFailed(String),
    EnumerationFailed(String),
}

#[derive(Debug)]
pub enum ConfigError {
    FileNotFound(String),
    InvalidFormat(String),
    ValidationFailed(String),
    SaveFailed(String),
    InvalidKey(String),
    /// Key and value.
    InvalidValue(String, String),
}

#[derive(Debug)]
pub enum GuiError {
    InitializationFailed(String),
    WindowCreationFailed(String),
    ResourceLoadFailed(String),
    CommunicationError(String),
}

#[derive(Debug)]
pub enum TrayError {
    CreationFailed(String),
    IconUpdateFailed(String),
    NotificationFailed(String),
}

/// How a bus-level failure is classified.
#[derive(Debug, Clone, Copy, PartialEq, Eq, Structural)]
pub enum BusErrorKind {
    Access,
    NoDevice,
    NotFound,
    Other,
}

// ---- text ----

/// Lower-case hex digit of `d` (below 16).
pub open spec fn hex_char(d: nat) -> char {
    if d < 10 {
        ((d + 48) as u8) as char
    } else {
        ((d + 87) as u8) as char
    }
}

/// `v` as four lower-case hex digits, most significant first.
pub open spec fn hex4(v: u16) -> Seq<char> {
    seq![
        hex_char((v as nat / 4096) % 16),
        hex_char((v as nat / 256) % 16),
        hex_char((v as nat / 16) % 16),
        hex_char(v as nat % 16),
    ]
}

/// The one-character string of hex digit `d`.
fn hex_str(d: u16) -> (r: &'static str)
    requires
        d < 16,
    ensures
        r@ == seq![hex_char(d as nat)],
{
    match d {
        0 => {
            proof {
                reveal_strlit("0");
            }
            "0"
        },
        1 => {
            proof {
                reveal_strlit("1");
            }
            "1"
        },
        2 => {
            proof {
                reveal_strlit("2");
            }
            "2"
        },
        3 => {
            proof {
                reveal_strlit("3");
            }
            "3"
        },
        4 => {
            proof {
                reveal_strlit("4");
            }
            "4"
        },
        5 => {
            proof {
                reveal_strlit("5");
            }
            "5"
        },
        6 => {
            proof {
                reveal_strlit("6");
            }
            "6"
        },
        7 => {
            proof {
                reveal_strlit("7");
            }
            "7"
        },
        8 => {
            proof {
                reveal_strlit("8");
            }
            "8"
        },
        9 => {
            proof {
                reveal_strlit("9");
            }
            "9"
        },
        10 => {
            proof {
                reveal_strlit("a");
            }
            "a"
        },
        11 => {
            proof {
                reveal_strlit("b");
            }
            "b"
        },
        12 => {
            proof {
                reveal_strlit("c");
            }
            "c"
        },
        13 => {
            proof {
                reveal_strlit("d");
            }
            "d"
        },
        14 => {
            proof {
                reveal_strlit("e");
            }
            "e"
        },
        15 => {
            proof {
                reveal_strlit("f");
            }
            "f"
        },
        _ => {
            proof {
                reveal_strlit("f");
            }
            "f"
        },
    }
}

fn hex4_string(v: u16) -> (r: String)
    ensures
        r@ == hex4(v),
{
    let mut s = String::new();
    s.append(hex_str((v / 4096) % 16));
    s.append(hex_str((v / 256) % 16));
    s.append(hex_str((v / 16) % 16));
    s.append(hex_str(v % 16));
    assert(s@ =~= hex4(v));
    s
}

fn cat(prefix: &str, msg: &str) -> (r: String)
    ensures
        r@ == prefix@ + msg@,
{
    let mut s = String::from_str(prefix);
    s.append(msg);
    s
}

pub open spec fn usb_error_text(e: UsbError) -> Seq<char> {
    match e {
        UsbError::InitializationFailed(m) => "Failed to initialize USB context: "@ + m@,
        UsbError::NoDevicesFound => "No USB devices found"@,
        UsbError::DeviceAccessDenied(v, p) => "Access denied to device "@ + hex4(v) + ":"@ + hex4(p),
        UsbError::DescriptorReadFailed(m) => "Failed to read device descriptor: "@ + m@,
        UsbError::MonitoringFailed(m) => "USB monitoring failed: "@ + m@,
        UsbError::EnumerationFailed(m) => "Device enumeration failed: "@ + m@,
    }
}

pub open spec fn config_error_text(e: ConfigError) -> Seq<char> {
    match e {
        ConfigError::FileNotFound(m) => "Configuration file not found: "@ + m@,
        ConfigError::InvalidFormat(m) => "Invalid configuration format: "@ + m@,
        ConfigError::ValidationFailed(m) => "Configuration validation failed: "@ + m@,
        ConfigError::SaveFailed(m) => "Failed to save configuration: "@ + m@,
        ConfigError::InvalidKey(m) => "Invalid configuration key: "@ + m@,
        ConfigError::InvalidValue(k, v) => "Invalid value '"@ + v@ + "' for key '"@ + k@ + "'"@,
    }
}

pub open spec fn gui_error_text(e: GuiError) -> Seq<char> {
    match e {
        GuiError::InitializationFailed(m) => "GUI initialization failed: "@ + m@,
        GuiError::WindowCreationFailed(m) => "Window creation failed: "@ + m@,
        GuiError::ResourceLoadFailed(m) => "Resource loading failed: "@ + m@,
        GuiError::CommunicationError(m) => "GUI communication error: "@ + m@,
    }
}

pub open spec fn tray_error_text(e: TrayError) -> Seq<char> {
    match e {
        TrayError::CreationFailed(m) => "System tray creation failed: "@ + m@,
        TrayError::IconUpdateFailed(m) => "Tray icon update failed: "@ + m@,
        TrayError::NotificationFailed(m) => "Notification failed: "@ + m@,
    }
}

/// The display text of an error.
pub open spec fn error_text(e: IronWatchError) -> Seq<char> {
    match e {
        IronWatchError::UsbError(u) => "USB Error: "@ + usb_error_text(u),
        IronWatchError::ConfigError(c) => "Configuration Error: "@ + config_error_text(c),
        IronWatchError::GuiError(g) => "GUI Error: "@ + gui_error_text(g),
        IronWatchError::TrayError(t) => "System Tray Error: "@ + tray_error_text(t),
        IronWatchError::IoError(m) => "I/O Error: "@ + m@,
        IronWatchError::PermissionError(m) => "Permission Error: "@ + m@,
    }
}

impl UsbError {
    pub fn message(&self) -> (r: String)
        ensures
            r@ == usb_error_text(*self),
    {
        match self {
            UsbError::InitializationFailed(m) => cat("Failed to initialize USB context: ", m.as_str()),
            UsbError::NoDevicesFound => String::from_str("No USB devices found"),
            UsbError::DeviceAccessDenied(v, p) => {
                let mut s = String::from_str("Access denied to device ");
                let hv = hex4_string(*v);
                let hp = hex4_string(*p);
                s.append(hv.as_str());
                s.append(":");
                s.append(hp.as_str());
                s
            },
            UsbError::DescriptorReadFailed(m) => cat("Failed to read device descriptor: ", m.as_str()),
            UsbError::MonitoringFailed(m) => cat("USB monitoring failed: ", m.as_str()),
            UsbError::EnumerationFailed(m) => cat("Device enumeration failed: ", m.as_str()),
        }
    }

    pub fn initialization_failed(msg: &str) -> (r: IronWatchError)
        ensures
            r matches IronWatchError::UsbError(UsbError::InitializationFailed(m)) && m@ == msg@,
    {
        IronWatchError::UsbError(UsbError::InitializationFailed(String::from_str(msg)))
    }

    pub fn device_access_denied(vendor_id: u16, product_id: u16) -> (r: IronWatchError)
        ensures
            r matches IronWatchError::UsbError(UsbError::DeviceAccessDenied(v, p)) && v == vendor_id
                && p == product_id,
    {
        IronWatchError::UsbError(UsbError::DeviceAccessDenied(vendor_id, product_id))
    }

    pub fn monitoring_failed(msg: &str) -> (r: IronWatchError)
        ensures
            r matches IronWatchError::UsbError(UsbError::MonitoringFailed(m)) && m@ == msg@,
    {
        IronWatchError::UsbError(UsbError::MonitoringFailed(String::from_str(msg)))
    }
}

impl ConfigError {
    pub fn message(&self) -> (r: String)
        ensures
            r@ == config_error_text(*self),
    {
        match self {
            ConfigError::FileNotFound(m) => cat("Configuration file not found: ", m.as_str()),
            ConfigError::InvalidFormat(m) => cat("Invalid configuration format: ", m.as_str()),
            ConfigError::ValidationFailed(m) => cat("Configuration validation failed: ", m.as_str()),
            ConfigError::SaveFailed(m) => cat("Failed to save configuration: ", m.as_str()),
            ConfigError::InvalidKey(m) => cat("Invalid configuration key: ", m.as_str()),
            ConfigError::InvalidValue(k, v) => {
                let mut s = cat("Invalid value '", v.as_str());
                s.append("' for key '");
                s.append(k.as_str());
                s.append("'");
                s
            },
        }
    }

    pub fn file_not_found(path: &str) -> (r: IronWatchError)
        ensures
            r matches IronWatchError::ConfigError(ConfigError::FileNotFound(m)) && m@ == path@,
    {
        IronWatchError::ConfigError(ConfigError::FileNotFound(String::from_str(path)))
    }

    pub fn validation_failed(msg: &str) -> (r: IronWatchError)
        ensures
            r matches IronWatchError::ConfigError(ConfigError::ValidationFailed(m)) && m@ == msg@,
    {
        IronWatchError::ConfigError(ConfigError::ValidationFailed(String::from_str(msg)))
    }
}

impl GuiError {
    pub fn message(&self) -> (r: String)
        ensures
            r@ == gui_error_text(*self),
    {
        match self {
            GuiError::InitializationFailed(m) => cat("GUI initialization failed: ", m.as_str()),
            GuiError::WindowCreationFailed(m) => cat("Window creation failed: ", m.as_str()),
            GuiError::ResourceLoadFailed(m) => cat("Resource loading failed: ", m.as_str()),
            GuiError::CommunicationError(m) => cat("GUI communication error: ", m.as_str()),
        }
    }

    pub fn initialization_failed(msg: &str) -> (r: IronWatchError)
        ensures
            r matches IronWatchError::GuiError(GuiError::InitializationFailed(m)) && m@ == msg@,
    {
        IronWatchError::GuiError(GuiError::InitializationFailed(String::from_str(msg)))
    }

    pub fn communication_error(msg: &str) -> (r: IronWatchError)
        ensures
            r matches IronWatchError::GuiError(GuiError::CommunicationError(m)) && m@ == msg@,
    {
        IronWatchError::GuiError(GuiError::CommunicationError(String::from_str(msg)))
    }
}

impl TrayError {
    pub fn message(&self) -> (r: String)
        ensures
            r@ == tray_error_text(*self),
    {
        match self {
            TrayError::CreationFailed(m) => cat("System tray creation failed: ", m.as_str()),
            TrayError::IconUpdateFailed(m) => cat("Tray icon update failed: ", m.as_str()),
            TrayError::NotificationFailed(m) => cat("Notification failed: ", m.as_str()),
        }
    }
}

impl IronWatchError {
    /// The error's display text.
    pub fn message(&self) -> (r: String)
        ensures
            r@ == error_text(*self),
    {
        match self {
            IronWatchError::UsbError(e) => {
                let t = e.message();
                cat("USB Error: ", t.as_str())
            },
            IronWatchError::ConfigError(e) => {
                let t = e.message();
                cat("Configuration Error: ", t.as_str())
            },
            IronWatchError::GuiError(e) => {
                let t = e.message();
                cat("GUI Error: ", t.as_str())
            },
            IronWatchError::TrayError(e) => {
                let t = e.message();
                cat("System Tray Error: ", t.as_str())
            },
            IronWatchError::IoError(m) => cat("I/O Error: ", m.as_str()),
            IronWatchError::PermissionError(m) => cat("Permission Error: ", m.as_str()),
        }
    }

    /// Classifies a bus-level failure: access refused, no device / not found,
    /// or anything else with its text.
    pub fn from_bus_error(kind: BusErrorKind, text: String) -> (r: IronWatchError)
        ensures
            match kind {
                BusErrorKind::Access => r matches IronWatchError::UsbError(
                    UsbError::DeviceAccessDenied(v, p),
                ) && v == 0 && p == 0,
                BusErrorKind::NoDevice | BusErrorKind::NotFound => r matches IronWatchError::UsbError(
                    UsbError::NoDevicesFound,
                ),
                BusErrorKind::Other => r matches IronWatchError::UsbError(
                    UsbError::EnumerationFailed(m),
                ) && m@ == text@,
            },
    {
        match kind {
            BusErrorKind::Access => IronWatchError::UsbError(UsbError::DeviceAccessDenied(0, 0)),
            BusErrorKind::NoDevice => IronWatchError::UsbError(UsbError::NoDevicesFound),
            BusErrorKind::NotFound => IronWatchError::UsbError(UsbError::NoDevicesFound),
            BusErrorKind::Other => IronWatchError::UsbError(UsbError::EnumerationFailed(text)),
        }
    }
}

/// Headline and suggested remedy for each kind of error.
pub open spec fn friendly(e: IronWatchError) -> (Seq<char>, Option<Seq<char>>) {
    match e {
        IronWatchError::UsbError(UsbError::DeviceAccessDenied(v, p)) => (
            "Cannot access USB device "@ + hex4(v) + ":"@ + hex4(p),
            Some("Try running the application as administrator or check device permissions."@),
        ),
        IronWatchError::UsbError(UsbError::InitializationFailed(_)) => (
            "Failed to initialize USB monitoring"@,
            Some("Make sure you have proper USB access permissions and libusb is installed."@),
        ),
        IronWatchError::PermissionError(_) => (
            "Insufficient permissions for USB access"@,
            Some("Run as administrator or add your user to the 'plugdev' group on Linux."@),
        ),
        IronWatchError::ConfigError(ConfigError::FileNotFound(_)) => (
            "Configuration file not found"@,
            Some("A default configuration will be created automatically."@),
        ),
        _ => (error_text(e), None),
    }
}

/// A user-facing message and, for the common failures, a suggestion.
pub fn get_user_friendly_message(error: &IronWatchError) -> (r: (String, Option<String>))
    ensures
        r.0@ == friendly(*error).0,
        match (r.1, friendly(*error).1) {
            (Some(a), Some(b)) => a@ == b,
            (None, None) => true,
            _ => false,
        },
{
    match error {
        IronWatchError::UsbError(UsbError::DeviceAccessDenied(v, p)) => {
            let mut s = String::from_str("Cannot access USB device ");
            let hv = hex4_string(*v);
            let hp = hex4_string(*p);
            s.append(hv.as_str());
            s.append(":");
            s.append(hp.as_str());
            (s, Some(String::from_str("Try running the application as administrator or check device permissions.")))
        },
        IronWatchError::UsbError(UsbError::InitializationFailed(_)) => (
            String::from_str("Failed to initialize USB monitoring"),
            Some(String::from_str("Make sure you have proper USB access permissions and libusb is installed.")),
        ),
        IronWatchError::PermissionError(_) => (
            String::from_str("Insufficient permissions for USB access"),
            Some(String::from_str("Run as administrator or add your user to the 'plugdev' group on Linux.")),
        ),
        IronWatchError::ConfigError(ConfigError::FileNotFound(_)) => (
            String::from_str("Configuration file not found"),
            Some(String::from_str("A default configuration will be created automatically.")),
        ),
        _ => (error.message(), None),
    }
}

/// Adds context to a USB error: it becomes a monitoring failure whose text
/// is `"<msg>: <error text>"`. Other errors pass through.
pub fn add_context<T>(r: Result<T, IronWatchError>, msg: &str) -> (out: Result<T, IronWatchError>)
    ensures
        match r {
            Err(IronWatchError::UsbError(u)) => out matches Err(
                IronWatchError::UsbError(UsbError::MonitoringFailed(m)),
            ) && m@ == msg@ + ": "@ + usb_error_text(u),
            _ => out == r,
        },
{
    match r {
        Ok(v) => Ok(v),
        Err(IronWatchError::UsbError(u)) => {
            let t = u.message();
            let mut s = String::from_str(msg);
            s.append(": ");
            s.append(t.as_str());
            Err(IronWatchError::UsbError(UsbError::MonitoringFailed(s)))
        },
        Err(other) => Err(other),
    }
}

/// Attaching context to a failed result.
pub trait ErrorContext<T>: Sized {
    fn with_context(self, msg: &str) -> Result<T, IronWatchError>;
}

impl<T> ErrorContext<T> for Result<T, IronWatchError> {
    fn with_context(self, msg: &str) -> Result<T, IronWatchError> {
        add_context(self, msg)
    }
}

} // verus!
