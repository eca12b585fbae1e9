//! Audit log entries.

use vstd::prelude::*;

verus! {

/// State of a wipe as recorded in the log.
#[derive(Clone, Copy, Debug, PartialEq, Eq, Structural)]
pub enum LogStatus {
    /// The wipe started.
    Started,
    /// One pass completed.
    PassComplete,
    /// Every pass completed.
    Completed,
    /// The wipe stopped abnormally (power loss, crash).
    Interrupted,
    /// The wipe failed.
    Error,
    /// The operator cancelled the wipe.
    Cancelled,
}

impl LogStatus {
    pub open spec fn spec_as_str(self) -> Seq<char> {
        match self {
            LogStatus::Started => "started"@,
            LogStatus::PassComplete => "pass_complete"@,
            LogStatus::Completed => "completed"@,
            LogStatus::Interrupted => "interrupted"@,
            LogStatus::Error => "error"@,
            LogStatus::Cancelled => "cancelled"@,
        }
    }

    /// The lower-case name shown in tables.
    pub fn as_str(&self) -> (s: &'static str)
        ensures
            s@ == self.spec_as_str(),
    {
        match self {
            LogStatus::Started => "started",
            LogStatus::PassComplete => "pass_complete",
            LogStatus::Completed => "completed",
            LogStatus::Interrupted => "interrupted",
            LogStatus::Error => "error",
            LogStatus::Cancelled => "cancelled",
        }
    }

    /// The name of the variant, as it is stored in the JSON log.
    pub open spec fn spec_variant_name(self) -> Seq<char> {
        match self {
            LogStatus::Started => "Started"@,
            LogStatus::PassComplete => "PassComplete"@,
            LogStatus::Completed => "Completed"@,
            LogStatus::Interrupted => "Interrupted"@,
            LogStatus::Error => "Error"@,
            LogStatus::Cancelled => "Cancelled"@,
        }
    }

    pub fn variant_name(&self) -> (s: &'static str)
        ensures
            s@ == self.spec_variant_name(),
    {
        match self {
            LogStatus::Started => "Started",
            LogStatus::PassComplete => "PassComplete",
            LogStatus::Completed => "Completed",
            LogStatus::Interrupted => "Interrupted",
            LogStatus::Error => "Error",
            LogStatus::Cancelled => "Cancelled",
        }
    }
}

/// One line of the audit log.
#[derive(Clone, Debug)]
pub struct LogEntry {
    /// ISO 8601 time stamp.
    pub timestamp: String,
    /// System user name of the operator.
    pub operator: String,
    pub hostname: String,
    /// Hardware serial number of the device.
    pub device_serial: String,
    pub device_path: String,
    pub device_size_bytes: u64,
    pub algorithm: String,
    /// Current pass (1-3).
    pub pass_number: u32,
    /// Pattern of the pass ("0x00", "0xFF", "RANDOM").
    pub pass_pattern: String,
    pub status: LogStatus,
    pub error_detail: Option<String>,
    /// HMAC-SHA256 signature, in lower-case hex.
    pub hmac_signature: String,
}

pub struct LogEntryView {
    pub timestamp: Seq<char>,
    pub operator: Seq<char>,
    pub hostname: Seq<char>,
    pub device_serial: Seq<char>,
    pub device_path: Seq<char>,
    pub device_size_bytes: u64,
    pub algorithm: Seq<char>,
    pub pass_number: u32,
    pub pass_pattern: Seq<char>,
    pub status: LogStatus,
    pub error_detail: Option<Seq<char>>,
    pub hmac_signature: Seq<char>,
}

impl View for LogEntry {
    type V = LogEntryView;

    open spec fn view(&self) -> LogEntryView {
        LogEntryView {
            timestamp: self.timestamp@,
            operator: self.operator@,
            hostname: self.hostname@,
            device_serial: self.device_serial@,
            device_path: self.device_path@,
            device_size_bytes: self.device_size_bytes,
            algorithm: self.algorithm@,
            pass_number: self.pass_number,
            pass_pattern: self.pass_pattern@,
            status: self.status,
            error_detail: self.error_detail.deep_view(),
            hmac_signature: self.hmac_signature@,
        }
    }
}

/// The views of a list of entries.
pub open spec fn entries_view(v: Seq<LogEntry>) -> Seq<LogEntryView> {
    v.map_values(|e: LogEntry| e@)
}

/// Copies an optional string.
pub fn copy_opt_string(o: &Option<String>) -> (r: Option<String>)
    ensures
        r.deep_view() == o.deep_view(),
{
    match o {
        Some(s) => Some(s.clone()),
        None => None,
    }
}

impl LogEntry {
    /// A copy of the entry.
    pub fn copy(&self) -> (r: LogEntry)
        ensures
            r@ == self@,
    {
        LogEntry {
            timestamp: self.timestamp.clone(),
            operator: self.operator.clone(),
            hostname: self.hostname.clone(),
            device_serial: self.device_serial.clone(),
            device_path: self.device_path.clone(),
            device_size_bytes: self.device_size_bytes,
            algorithm: self.algorithm.clone(),
            pass_number: self.pass_number,
            pass_pattern: self.pass_pattern.clone(),
            status: self.status,
            error_detail: copy_opt_string(&self.error_detail),
            hmac_signature: self.hmac_signature.clone(),
        }
    }
}

} // verus!
