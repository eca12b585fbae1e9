//! Decisions of the command-line session: confirming a target, expanding
//! the log directory, and choosing which audit entries a listing shows.

use vstd::prelude::*;
use vstd::string::*;
use vstd::utf8::*;
use crate::audit::entry::LogEntry;
use crate::error::PurgeError;
use crate::text::{chars_of, push_str, str_eq, trim, trim_chars, string_of};

verus! {

/// Whether what the operator typed, without surrounding white space, is
/// exactly the serial number of the target device.
pub fn serial_matches(input: &str, serial: &str) -> (r: bool)
    ensures
        r == (trim(input@) == serial@),
{
    let t = trim_chars(input);
    str_eq(t.as_str(), serial)
}

/// The error for a wipe target that is not among the removable devices,
/// with the hint to list them.
pub fn target_not_listed(path: &str) -> (e: PurgeError)
    ensures
        e matches PurgeError::DeviceNotFound(m) && m@ == "设备 "@ + path@
            + " 不在可移动设备列表中.\n运行 `purgedisk list` 查看可用设备."@,
{
    let mut m = String::from_str("设备 ");
    push_str(&mut m, path);
    push_str(&mut m, " 不在可移动设备列表中.\n运行 `purgedisk list` 查看可用设备.");
    PurgeError::DeviceNotFound(m)
}

/// Whether a path is written relative to the home directory ("~/" or "~\").
pub open spec fn is_home_relative(path: Seq<char>) -> bool {
    path.len() >= 2 && path[0] == '~' && (path[1] == '/' || path[1] == '\\')
}

/// For a path under the home directory, the part after "~/" (or "~\"),
/// which the caller joins to the home directory; `None` for other paths,
/// which are taken as they are.
pub fn home_relative(path: &str) -> (r: Option<String>)
    ensures
        r.deep_view() == (if is_home_relative(path@) {
            Some(path@.subrange(2, path@.len() as int))
        } else {
            None::<Seq<char>>
        }),
{
    let v = chars_of(path);
    let n = v.len();
    if n >= 2 && v[0] == '~' && (v[1] == '/' || v[1] == '\\') {
        let rest = string_of(&v, 2, n);
        Some(rest)
    } else {
        None
    }
}

/// The timestamp as a log listing shows it: its first 19 bytes (date and
/// time to the second), or all of it when it is shorter. The cut must fall
/// between two characters: a slice elsewhere panics.
pub fn short_timestamp(ts: &str) -> (r: String)
    requires
        ts.spec_bytes().len() <= 19 || is_char_boundary(ts.spec_bytes(), 19),
    ensures
        ts.spec_bytes().len() <= 19 ==> r@ == ts@,
        ts.spec_bytes().len() > 19 ==> r@ == decode_utf8(ts.spec_bytes().subrange(0, 19)),
{
    proof {
        broadcast use encode_utf8_valid_utf8;
    }
    if ts.as_bytes().len() <= 19 {
        String::from_str(ts)
    } else {
        let (head, _tail) = ts.split_at(19);
        proof {
            broadcast use encode_utf8_decode_utf8;
            assert(decode_utf8(encode_utf8(head@)) == head@);
            assert(head.spec_bytes() == encode_utf8(head@));
            assert(head.spec_bytes() == ts.spec_bytes().subrange(0, 19));
        }
        String::from_str(head)
    }
}

/// The instant that an RFC 3339 timestamp names, as whole seconds since
/// the Unix epoch and the nanoseconds past them; `None` when the text is
/// not such a timestamp.
pub uninterp spec fn rfc3339_instant(text: Seq<char>) -> Option<(i64, u32)>;

/// chrono's `DateTime::parse_from_rfc3339`, the parsed time taken by its
/// `timestamp()` and `timestamp_subsec_nanos()`. The contract only names
/// the result: it depends on the text alone.
#[verifier::external_body]
fn parse_rfc3339(text: &str) -> (r: Option<(i64, u32)>)
    ensures
        r == rfc3339_instant(text@),
{
    match chrono::DateTime::parse_from_rfc3339(text) {
        Ok(t) => Some((t.timestamp(), t.timestamp_subsec_nanos())),
        Err(_) => None,
    }
}

/// Whether instant `a` comes strictly before instant `b`.
pub open spec fn earlier(a: (i64, u32), b: (i64, u32)) -> bool {
    a.0 < b.0 || (a.0 == b.0 && a.1 < b.1)
}

/// Whether a listing shows an entry: an entry whose time could be read and
/// is older than the cutoff is left out, and so is one whose serial number
/// differs from the filter, when there is a filter.
pub open spec fn spec_listed(
    time: Option<(i64, u32)>,
    cutoff: (i64, u32),
    serial: Seq<char>,
    filter: Option<Seq<char>>,
) -> bool {
    &&& !(time matches Some(t) && earlier(t, cutoff))
    &&& match filter {
        Some(f) => serial == f,
        None => true,
    }
}

/// The decision of `spec_listed`, given the entry's parsed time.
pub fn listed_at(time: Option<(i64, u32)>, cutoff: (i64, u32), entry: &LogEntry, filter: Option<&str>) -> (r: bool)
    ensures
        r == spec_listed(time, cutoff, entry@.device_serial, filter.deep_view()),
{
    let recent = match time {
        Some(t) => !(t.0 < cutoff.0 || (t.0 == cutoff.0 && t.1 < cutoff.1)),
        None => true,
    };
    if !recent {
        return false;
    }
    match filter {
        Some(f) => str_eq(entry.device_serial.as_str(), f),
        None => true,
    }
}

/// Whether a log listing with the given cutoff instant and serial filter
/// shows the entry; its timestamp is read as RFC 3339.
pub fn log_entry_listed(entry: &LogEntry, cutoff: (i64, u32), filter: Option<&str>) -> (r: bool)
    ensures
        r == spec_listed(
            rfc3339_instant(entry@.timestamp),
            cutoff,
            entry@.device_serial,
            filter.deep_view(),
        ),
{
    let time = parse_rfc3339(entry.timestamp.as_str());
    listed_at(time, cutoff, entry, filter)
}

} // verus!
