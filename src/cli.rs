use vstd::prelude::*;
use vstd::string::StringExecFns;
use crate::text::str_eq;

verus! {

#[derive(Debug, Clone, Copy, PartialEq, Eq, Structural)]
pub enum OutputFormat {
    Json,
    Table,
    Csv,
}

/// What the command line asked for. Paths are kept as text.
#[derive(Debug)]
pub struct CliConfig {
    pub monitor_mode: bool,
    pub output_format: OutputFormat,
    pub config_file: Option<String>,
    pub log_level: String,
    pub device_filter: Option<String>,
    pub continuous: bool,
    pub output_file: Option<String>,
}

impl Default for CliConfig {
    fn default() -> (r: Self)
        ensures
            !r.monitor_mode,
            r.output_format == OutputFormat::Table,
            r.config_file is None,
            r.log_level@ == "info"@,
            r.device_filter is None,
            !r.continuous,
            r.output_file is None,
    {
        CliConfig {
            monitor_mode: false,
            output_format: OutputFormat::Table,
            config_file: None,
            log_level: String::from_str("info"),
            device_filter: None,
            continuous: false,
            output_file: None,
        }
    }
}

/// Log level for a count of `-v` flags.
pub open spec fn level_for(count: u8) -> Seq<char> {
    if count == 0 {
        "info"@
    } else if count == 1 {
        "debug"@
    } else {
        "trace"@
    }
}

pub fn log_level_for_verbosity(count: u8) -> (r: String)
    ensures
        r@ == level_for(count),
{
    if count == 0 {
        String::from_str("info")
    } else if count == 1 {
        String::from_str("debug")
    } else {
        String::from_str("trace")
    }
}

/// Output format by name; anything but `json` and `csv` is a table.
pub open spec fn format_for(name: Seq<char>) -> OutputFormat {
    if name == "json"@ {
        OutputFormat::Json
    } else if name == "csv"@ {
        OutputFormat::Csv
    } else {
        OutputFormat::Table
    }
}

impl OutputFormat {
    pub fn from_name(name: &str) -> (r: OutputFormat)
        ensures
            r == format_for(name@),
    {
        if str_eq(name, "json") {
            OutputFormat::Json
        } else if str_eq(name, "csv") {
            OutputFormat::Csv
        } else {
            OutputFormat::Table
        }
    }
}

} // verus!
