//! The process settings, with their defaults, and the reading of a log level
//! by name.
use vstd::prelude::*;

use crate::text::{lower_of, same_text, to_lower};

verus! {

/// Settings of the process, built once at start-up and handed to each part.
pub struct Settings {
    pub log_level: String,
    pub log_config: String,
    pub elastic_url: String,
    pub elastic_index: String,
    pub listen_address: String,
}

impl Default for Settings {
    /// The settings that hold where no configuration source says otherwise.
    fn default() -> (r: Settings)
        ensures
            r.log_level@ == "info"@,
            r.log_config@ == "log4rs.yml"@,
            r.elastic_url@ == "http://localhost:9200"@,
            r.elastic_index@ == "flibooks"@,
            r.listen_address@ == "localhost:3000"@,
    {
        Settings {
            log_level: String::from_str("info"),
            log_config: String::from_str("log4rs.yml"),
            elastic_url: String::from_str("http://localhost:9200"),
            elastic_index: String::from_str("flibooks"),
            listen_address: String::from_str("localhost:3000"),
        }
    }
}

/// How much the process logs.
#[derive(Clone, Copy, PartialEq, Eq, Structural, Debug)]
pub enum LogLevel {
    Off,
    Error,
    Warn,
    Info,
    Debug,
    Trace,
}

/// The level that a lower-case name stands for; any other name turns
/// logging off.
pub open spec fn level_named(name: Seq<char>) -> LogLevel {
    if name == "info"@ {
        LogLevel::Info
    } else if name == "debug"@ {
        LogLevel::Debug
    } else if name == "trace"@ {
        LogLevel::Trace
    } else if name == "warn"@ {
        LogLevel::Warn
    } else if name == "error"@ {
        LogLevel::Error
    } else {
        LogLevel::Off
    }
}

/// The log level that a setting names, in any case.
pub fn log_level_of(name: &str) -> (r: LogLevel)
    ensures
        r == level_named(lower_of(name@)),
{
    let low = to_lower(name);
    let l = low.as_str();
    if same_text(l, "info") {
        LogLevel::Info
    } else if same_text(l, "debug") {
        LogLevel::Debug
    } else if same_text(l, "trace") {
        LogLevel::Trace
    } else if same_text(l, "warn") {
        LogLevel::Warn
    } else if same_text(l, "error") {
        LogLevel::Error
    } else {
        LogLevel::Off
    }
}

} // verus!
