//! The audit trail of one machine: which entries are written, where, and
//! what is read back from it.

use vstd::prelude::*;
use vstd::string::*;
use crate::audit::entry::{LogEntry, LogEntryView, LogStatus, copy_opt_string, entries_view};
use crate::audit::json::{entry_json, entry_to_json};
use crate::audit::sign::{can_sign, is_lower_hex, sha256_input_fits, sign_entry, signed, signing_payload};
use crate::text::{chars_of, push_str, str_eq};
use crate::wipe::engine::WipePass;

verus! {

/// The current local time in RFC 3339 form: chrono's `Local::now()` then
/// `DateTime::to_rfc3339`. Nothing is claimed of the text: it is the time.
#[verifier::external_body]
fn now_iso8601() -> String {
    chrono::Local::now().to_rfc3339()
}

/// The current local date as "YYYY-MM-DD": chrono's `Local::now()` then
/// `DateTime::format("%Y-%m-%d")`. Nothing is claimed of the text.
#[verifier::external_body]
fn today_ymd() -> String {
    chrono::Local::now().format("%Y-%m-%d").to_string()
}

/// The host name of the machine: `hostname::get()`, its `OsString` made a
/// `String` lossily; `None` when the lookup fails. Nothing is claimed of it.
#[verifier::external_body]
fn lookup_hostname() -> Option<String> {
    match hostname::get() {
        Ok(h) => Some(h.to_string_lossy().to_string()),
        Err(_) => None,
    }
}

/// The host name, or "未知主机" (unknown host) when it could not be read.
pub fn hostname_or_unknown(found: Option<String>) -> (h: String)
    ensures
        h@ == match found {
            Some(s) => s@,
            None => "未知主机"@,
        },
{
    match found {
        Some(s) => s,
        None => String::from_str("未知主机"),
    }
}

/// The host name of this machine.
pub fn get_hostname() -> String {
    hostname_or_unknown(lookup_hostname())
}

/// The operator name, or "未知用户" (unknown user) when the environment
/// did not give one.
pub fn operator_or_unknown(found: Option<String>) -> (o: String)
    ensures
        o@ == match found {
            Some(s) => s@,
            None => "未知用户"@,
        },
{
    match found {
        Some(s) => s,
        None => String::from_str("未知用户"),
    }
}

/// The algorithm recorded in every entry.
pub open spec fn algorithm_name() -> Seq<char> {
    "DoD 5220.22-M (3 轮)"@
}

/// What every entry of a wipe records of the device and the operator.
pub open spec fn describes(
    e: LogEntryView,
    operator: Seq<char>,
    path: Seq<char>,
    serial: Seq<char>,
    size: u64,
) -> bool {
    &&& e.operator == operator
    &&& e.device_path == path
    &&& e.device_serial == serial
    &&& e.device_size_bytes == size
    &&& e.algorithm == algorithm_name()
    &&& e.hmac_signature == Seq::<char>::empty()
}

/// The file that holds the entries of one day: "audit-YYYY-MM-DD.jsonl".
pub open spec fn log_file_name(date: Seq<char>) -> Seq<char> {
    "audit-"@ + date + ".jsonl"@
}

pub fn log_file_name_for(date: &str) -> (n: String)
    ensures
        n@ == log_file_name(date@),
{
    let mut n = String::from_str("audit-");
    push_str(&mut n, date);
    push_str(&mut n, ".jsonl");
    n
}

/// A line to append to a file of the log.
pub struct LogWrite {
    pub file_name: String,
    /// The signed entry as JSON, without the line break.
    pub line: String,
}

/// The audit log of a machine: its directory, its key and its operator.
pub struct AuditLog {
    log_dir: String,
    hmac_key: Vec<u8>,
    operator: String,
}

impl AuditLog {
    pub closed spec fn spec_log_dir(&self) -> Seq<char> {
        self.log_dir@
    }

    pub closed spec fn key(&self) -> Seq<u8> {
        self.hmac_key@
    }

    pub closed spec fn operator(&self) -> Seq<char> {
        self.operator@
    }

    /// The key's length is within what HMAC-SHA256 accepts.
    pub closed spec fn wf(&self) -> bool {
        sha256_input_fits(self.hmac_key@.len())
    }

    /// An audit log over a directory (created by the caller), with the key
    /// read from or stored in it, written in the name of `operator`.
    pub fn new(log_dir: &str, hmac_key: Vec<u8>, operator: &str) -> (a: AuditLog)
        requires
            sha256_input_fits(hmac_key@.len()),
        ensures
            a.spec_log_dir() == log_dir@,
            a.key() == hmac_key@,
            a.operator() == operator@,
            a.wf(),
    {
        AuditLog {
            log_dir: String::from_str(log_dir),
            hmac_key,
            operator: String::from_str(operator),
        }
    }

    pub fn log_dir(&self) -> (d: &str)
        ensures
            d@ == self.spec_log_dir(),
    {
        self.log_dir.as_str()
    }

    /// Whether `write_entry` may sign this entry.
    pub fn can_write(&self, entry: &LogEntry) -> (ok: bool)
        requires
            self.wf(),
        ensures
            ok == sha256_input_fits(signing_payload(entry@).len() + 64),
    {
        can_sign(self.hmac_key.as_slice(), entry)
    }

    /// Signs an entry and says where it goes: the line is the JSON of the
    /// signed entry, the file is that of the current day.
    pub fn write_entry(&self, entry: LogEntry) -> (w: LogWrite)
        requires
            self.wf(),
            sha256_input_fits(signing_payload(entry@).len() + 64),
        ensures
            w.line@ == entry_json(signed(self.key(), entry@)),
            signed(self.key(), entry@).hmac_signature.len() == 64,
            is_lower_hex(signed(self.key(), entry@).hmac_signature),
            exists|date: Seq<char>| w.file_name@ == log_file_name(date),
    {
        let signed_entry = sign_entry(self.hmac_key.as_slice(), entry);
        let line = entry_to_json(&signed_entry);
        let date = today_ymd();
        let file_name = log_file_name_for(date.as_str());
        LogWrite { file_name, line }
    }

    fn entry_with(
        &self,
        timestamp: String,
        hostname: String,
        device_path: &str,
        device_serial: &str,
        device_size: u64,
        pass_number: u32,
        pass_pattern: String,
        status: LogStatus,
        error_detail: Option<String>,
    ) -> (e: LogEntry)
        ensures
            describes(e@, self.operator(), device_path@, device_serial@, device_size),
            e@.timestamp == timestamp@,
            e@.hostname == hostname@,
            e@.pass_number == pass_number,
            e@.pass_pattern == pass_pattern@,
            e@.status == status,
            e@.error_detail == error_detail.deep_view(),
    {
        LogEntry {
            timestamp,
            operator: self.operator.clone(),
            hostname,
            device_serial: String::from_str(device_serial),
            device_path: String::from_str(device_path),
            device_size_bytes: device_size,
            algorithm: String::from_str("DoD 5220.22-M (3 轮)"),
            pass_number,
            pass_pattern,
            status,
            error_detail,
            hmac_signature: String::new(),
        }
    }

    /// The entry written before a wipe starts (pass 0, status `Started`),
    /// at the given time on the given host.
    pub fn start_entry_at(
        &self,
        timestamp: String,
        hostname: String,
        device_path: &str,
        device_serial: &str,
        device_size: u64,
    ) -> (e: LogEntry)
        ensures
            describes(e@, self.operator(), device_path@, device_serial@, device_size),
            e@.timestamp == timestamp@,
            e@.hostname == hostname@,
            e@.pass_number == 0,
            e@.pass_pattern == Seq::<char>::empty(),
            e@.status == LogStatus::Started,
            e@.error_detail is None,
    {
        self.entry_with(
            timestamp,
            hostname,
            device_path,
            device_serial,
            device_size,
            0,
            String::new(),
            LogStatus::Started,
            None,
        )
    }

    /// The entry written when a pass completes, at the given time on the
    /// given host.
    pub fn pass_entry_at(
        &self,
        timestamp: String,
        hostname: String,
        device_path: &str,
        device_serial: &str,
        device_size: u64,
        pass: WipePass,
    ) -> (e: LogEntry)
        ensures
            describes(e@, self.operator(), device_path@, device_serial@, device_size),
            e@.timestamp == timestamp@,
            e@.hostname == hostname@,
            e@.pass_number == pass.spec_index(),
            e@.pass_pattern == pass.spec_pattern_name(),
            e@.status == LogStatus::PassComplete,
            e@.error_detail is None,
    {
        let pattern = match pass {
            WipePass::Zero => String::from_str("0x00"),
            WipePass::One => String::from_str("0xFF"),
            WipePass::Random => String::from_str("RANDOM"),
        };
        self.entry_with(
            timestamp,
            hostname,
            device_path,
            device_serial,
            device_size,
            pass.index(),
            pattern,
            LogStatus::PassComplete,
            None,
        )
    }

    /// The entry written when a wipe ends (pass 3, the given status and
    /// error), at the given time on the given host.
    pub fn end_entry_at(
        &self,
        timestamp: String,
        hostname: String,
        device_path: &str,
        device_serial: &str,
        device_size: u64,
        status: LogStatus,
        error: Option<String>,
    ) -> (e: LogEntry)
        ensures
            describes(e@, self.operator(), device_path@, device_serial@, device_size),
            e@.timestamp == timestamp@,
            e@.hostname == hostname@,
            e@.pass_number == 3,
            e@.pass_pattern == Seq::<char>::empty(),
            e@.status == status,
            e@.error_detail == error.deep_view(),
    {
        self.entry_with(timestamp, hostname, device_path, device_serial, device_size, 3, String::new(), status, error)
    }

    /// The entry written before a wipe starts, now, on this host.
    pub fn create_start_entry(&self, device_path: &str, device_serial: &str, device_size: u64) -> (e: LogEntry)
        ensures
            describes(e@, self.operator(), device_path@, device_serial@, device_size),
            e@.pass_number == 0,
            e@.pass_pattern == Seq::<char>::empty(),
            e@.status == LogStatus::Started,
            e@.error_detail is None,
    {
        self.start_entry_at(now_iso8601(), get_hostname(), device_path, device_serial, device_size)
    }

    /// The entry written when a pass completes, now, on this host.
    pub fn create_pass_entry(
        &self,
        device_path: &str,
        device_serial: &str,
        device_size: u64,
        pass: WipePass,
    ) -> (e: LogEntry)
        ensures
            describes(e@, self.operator(), device_path@, device_serial@, device_size),
            e@.pass_number == pass.spec_index(),
            e@.pass_pattern == pass.spec_pattern_name(),
            e@.status == LogStatus::PassComplete,
            e@.error_detail is None,
    {
        self.pass_entry_at(now_iso8601(), get_hostname(), device_path, device_serial, device_size, pass)
    }

    /// The entry written when a wipe ends, now, on this host.
    pub fn create_end_entry(
        &self,
        device_path: &str,
        device_serial: &str,
        device_size: u64,
        status: LogStatus,
        error: Option<String>,
    ) -> (e: LogEntry)
        ensures
            describes(e@, self.operator(), device_path@, device_serial@, device_size),
            e@.pass_number == 3,
            e@.pass_pattern == Seq::<char>::empty(),
            e@.status == status,
            e@.error_detail == error.deep_view(),
    {
        self.end_entry_at(now_iso8601(), get_hostname(), device_path, device_serial, device_size, status, error)
    }
}

/// Whether a file name has the extension "jsonl" (as `Path::extension`
/// sees it: a dot that is not the first character, then "jsonl").
pub open spec fn is_log_file_name(name: Seq<char>) -> bool {
    name.len() > 6 && name.subrange(name.len() - 6, name.len() as int) == ".jsonl"@
}

pub fn is_log_file(name: &str) -> (r: bool)
    ensures
        r == is_log_file_name(name@),
{
    let cs = chars_of(name);
    let suffix = chars_of(".jsonl");
    proof {
        reveal_strlit(".jsonl");
    }
    let n = cs.len();
    if n <= 6 {
        return false;
    }
    let mut i: usize = 0;
    while i < 6
        invariant
            cs@ == name@,
            suffix@ == ".jsonl"@,
            suffix@.len() == 6,
            n == cs.len(),
            n > 6,
            i <= 6,
            forall|j: int| 0 <= j < i ==> cs@[n - 6 + j] == suffix@[j],
        decreases 6 - i,
    {
        if cs[n - 6 + i] != suffix[i] {
            assert(name@.subrange(n - 6, n as int)[i as int] != ".jsonl"@[i as int]);
            return false;
        }
        i = i + 1;
    }
    assert(name@.subrange(n - 6, n as int) =~= ".jsonl"@);
    true
}

/// Whether an entry leaves a wipe open: it was written when the wipe
/// started or when one of its passes completed, and no end entry followed.
pub open spec fn leaves_wipe_open(e: LogEntryView) -> bool {
    e.status == LogStatus::Started || e.status == LogStatus::PassComplete
}

/// Of the last entries of the log files, those that leave a wipe open, in
/// their order.
pub open spec fn unfinished(last_entries: Seq<LogEntryView>) -> Seq<LogEntryView> {
    last_entries.filter(|e: LogEntryView| leaves_wipe_open(e))
}

/// The wipes that were started and never ended: of the last entry of each
/// log file, those written at the start of a wipe or after one of its
/// passes (the log is written before every pass, so a wipe cut off by a
/// power loss is found whichever pass it was in).
pub fn incomplete_entries(last_entries: &Vec<LogEntry>) -> (r: Vec<LogEntry>)
    ensures
        entries_view(r@) == unfinished(entries_view(last_entries@)),
{
    let ghost pred = |e: LogEntryView| leaves_wipe_open(e);
    let mut r: Vec<LogEntry> = Vec::new();
    let mut i: usize = 0;
    while i < last_entries.len()
        invariant
            i <= last_entries.len(),
            pred == (|e: LogEntryView| leaves_wipe_open(e)),
            entries_view(r@) == entries_view(last_entries@.subrange(0, i as int)).filter(pred),
        decreases last_entries.len() - i,
    {
        let ghost old_r = r@;
        let ghost prefix = entries_view(last_entries@.subrange(0, i as int));
        let ghost next = entries_view(last_entries@.subrange(0, i + 1));
        proof {
            assert(next.drop_last() =~= prefix);
            assert(next.last() == last_entries@[i as int]@);
            reveal_with_fuel(Seq::<_>::filter, 1);
        }
        if last_entries[i].status == LogStatus::Started || last_entries[i].status == LogStatus::PassComplete {
            let e = last_entries[i].copy();
            r.push(e);
            assert(entries_view(r@) =~= entries_view(old_r).push(e@));
        }
        i = i + 1;
    }
    assert(last_entries@.subrange(0, last_entries.len() as int) =~= last_entries@);
    r
}

/// Whether an entry passes the optional serial-number filter.
pub fn matches_serial(entry: &LogEntry, filter: Option<&str>) -> (r: bool)
    ensures
        r == match filter {
            Some(f) => entry@.device_serial == f@,
            None => true,
        },
{
    match filter {
        Some(f) => str_eq(entry.device_serial.as_str(), f),
        None => true,
    }
}

/// The status recorded when a wipe ends: `Completed` on success, else
/// `Cancelled` if the operator cancelled, else `Error`.
pub open spec fn spec_end_status(success: bool, cancelled: bool) -> LogStatus {
    if success {
        LogStatus::Completed
    } else if cancelled {
        LogStatus::Cancelled
    } else {
        LogStatus::Error
    }
}

pub fn end_status(success: bool, cancelled: bool) -> (s: LogStatus)
    ensures
        s == spec_end_status(success, cancelled),
{
    if success {
        LogStatus::Completed
    } else if cancelled {
        LogStatus::Cancelled
    } else {
        LogStatus::Error
    }
}

/// A wipe whose log file ends with its start entry or a pass entry is
/// reported as unfinished: every such last entry is among those that
/// `incomplete_entries` keeps, and every entry it keeps is of that kind.
pub proof fn lemma_unfinished_wipe_is_reported(last_entries: Seq<LogEntryView>, i: int)
    requires
        0 <= i < last_entries.len(),
    ensures
        leaves_wipe_open(last_entries[i]) ==> unfinished(last_entries).contains(last_entries[i]),
        forall|k: int|
            0 <= k < unfinished(last_entries).len() ==> leaves_wipe_open(#[trigger] unfinished(last_entries)[k]),
{
    let pred = |e: LogEntryView| leaves_wipe_open(e);
    if pred(last_entries[i]) {
        last_entries.lemma_filter_contains(pred, i);
    }
    assert forall|k: int| 0 <= k < unfinished(last_entries).len() implies leaves_wipe_open(
        #[trigger] unfinished(last_entries)[k],
    ) by {
        last_entries.lemma_filter_pred(pred, k);
    }
}

/// A wipe whose log file ends with an end entry (completed, cancelled or
/// failed) is not reported: that last entry is not among those that
/// `incomplete_entries` keeps, and leaving its file out changes nothing in
/// the result.
pub proof fn lemma_ended_wipe_is_not_reported(last_entries: Seq<LogEntryView>, i: int)
    requires
        0 <= i < last_entries.len(),
        !leaves_wipe_open(last_entries[i]),
    ensures
        !unfinished(last_entries).contains(last_entries[i]),
        unfinished(last_entries) == unfinished(last_entries.remove(i)),
{
    let pred = |e: LogEntryView| leaves_wipe_open(e);
    lemma_unfinished_wipe_is_reported(last_entries, i);
    if unfinished(last_entries).contains(last_entries[i]) {
        let k = choose|k: int|
            0 <= k < unfinished(last_entries).len() && unfinished(last_entries)[k] == last_entries[i];
        assert(leaves_wipe_open(unfinished(last_entries)[k]));
    }
    let front = last_entries.subrange(0, i);
    let back = last_entries.subrange(i + 1, last_entries.len() as int);
    let one = seq![last_entries[i]];
    assert(last_entries =~= front + one + back);
    assert(last_entries.remove(i) =~= front + back);
    Seq::filter_distributes_over_add(front + one, back, pred);
    Seq::filter_distributes_over_add(front, one, pred);
    Seq::filter_distributes_over_add(front, back, pred);
    assert(one.filter(pred) =~= Seq::<LogEntryView>::empty()) by {
        reveal_with_fuel(Seq::<_>::filter, 2);
        assert(one.drop_last() =~= Seq::<LogEntryView>::empty());
    }
    assert(front.filter(pred) + Seq::<LogEntryView>::empty() =~= front.filter(pred));
}

} // verus!
