//! Reading the output of macOS `diskutil`: the disk list (text and plist
//! forms) and the property list of one disk.

use vstd::prelude::*;
use vstd::string::*;
use crate::device::info::{Device, DeviceView};
use crate::format::KIB;
use crate::text::{
    all_digits, chars_of, lemma_first_occurrence, decimal, find_from, first_occurrence, is_digit, lines_of, parse_u64,
    push_char, push_decimal, push_str, skip_white_space, spec_parse_u64, split_lines, starts_with,
    starts_with_str, str_eq, string_of, strip_prefix_all, trim, trim_chars, trim_start,
    trim_start_matches, matches_at,
};

verus! {

/// "<key>KEY</key>".
pub open spec fn key_pattern(key: Seq<char>) -> Seq<char> {
    "<key>"@ + key + "</key>"@
}

/// What follows the first "<key>KEY</key>" of the document.
pub open spec fn after_key(xml: Seq<char>, key: Seq<char>) -> Option<Seq<char>> {
    match first_occurrence(xml, key_pattern(key), 0) {
        Some(p) => Some(xml.subrange(p + key_pattern(key).len(), xml.len() as int)),
        None => None,
    }
}

/// The text between the first `open` and the first `close` of `s`.
pub open spec fn between(s: Seq<char>, open: Seq<char>, close: Seq<char>) -> Option<Seq<char>> {
    match (first_occurrence(s, open, 0), first_occurrence(s, close, 0)) {
        (Some(a), Some(b)) => Some(s.subrange(a + open.len(), b)),
        _ => None,
    }
}

/// The first `close` does not come before the end of the first `open`
/// (else the text between them would be a backwards slice, which panics).
pub open spec fn between_ok(s: Seq<char>, open: Seq<char>, close: Seq<char>) -> bool {
    match (first_occurrence(s, open, 0), first_occurrence(s, close, 0)) {
        (Some(a), Some(b)) => a + open.len() <= b,
        _ => true,
    }
}

/// Whether the value after KEY is `value`. Only the tag right after the key
/// (white space aside) is read, so that a value of a later key never
/// counts: "true" and "false" stand for `<true/>` and `<false/>`, any other
/// value for a `<string>` element that must come next.
pub open spec fn spec_xml_contains(xml: Seq<char>, key: Seq<char>, value: Seq<char>) -> bool {
    match after_key(xml, key) {
        None => false,
        Some(after) => {
            let t = trim_start(after);
            if value == "true"@ {
                starts_with(t, "<true/>"@)
            } else if value == "false"@ {
                starts_with(t, "<false/>"@)
            } else {
                &&& starts_with(t, "<string>"@)
                &&& match first_occurrence(t, "</string>"@, 8) {
                    Some(b) => t.subrange(8, b) == value,
                    None => false,
                }
            }
        },
    }
}

/// The (trimmed, non-empty) first `<string>` after KEY.
pub open spec fn spec_extract_string(xml: Seq<char>, key: Seq<char>) -> Option<Seq<char>> {
    match after_key(xml, key) {
        None => None,
        Some(after) => match between(after, "<string>"@, "</string>"@) {
            Some(v) => if trim(v).len() == 0 {
                None
            } else {
                Some(trim(v))
            },
            None => None,
        },
    }
}

pub open spec fn extract_string_ok(xml: Seq<char>, key: Seq<char>) -> bool {
    match after_key(xml, key) {
        Some(after) => between_ok(after, "<string>"@, "</string>"@),
        None => true,
    }
}

/// The first `<integer>` after KEY, as a `u64`.
pub open spec fn spec_extract_u64(xml: Seq<char>, key: Seq<char>) -> Option<u64> {
    match after_key(xml, key) {
        None => None,
        Some(after) => match between(after, "<integer>"@, "</integer>"@) {
            Some(v) => spec_parse_u64(v),
            None => None,
        },
    }
}

pub open spec fn extract_u64_ok(xml: Seq<char>, key: Seq<char>) -> bool {
    match after_key(xml, key) {
        Some(after) => between_ok(after, "<integer>"@, "</integer>"@),
        None => true,
    }
}

/// The characters of `xml` after the first "<key>KEY</key>": the index just past it.
fn find_after_key(x: &Vec<char>, key: &str) -> (r: Option<usize>)
    ensures
        match after_key(x@, key@) {
            Some(after) => r matches Some(i) && i <= x@.len() && after == x@.subrange(i as int, x@.len() as int),
            None => r is None,
        },
{
    let mut pat = String::from_str("<key>");
    push_str(&mut pat, key);
    push_str(&mut pat, "</key>");
    let p = chars_of(pat.as_str());
    let n = x.len();
    match find_from(x, &p, 0) {
        Some(pos) => {
            proof {
                lemma_first_occurrence(x@, p@, 0);
            }
            Some(pos + p.len())
        },
        None => None,
    }
}

/// Positions of the first `open` and the first `close` in `v[from..]`,
/// relative to `from`.
fn find_between(v: &Vec<char>, from: usize, open: &str, close: &str) -> (r: Option<(usize, usize)>)
    requires
        from <= v@.len(),
    ensures
        ({
            let s = v@.subrange(from as int, v@.len() as int);
            &&& r is Some <==> (first_occurrence(s, open@, 0) is Some && first_occurrence(s, close@, 0) is Some)
            &&& r matches Some((a, b)) ==> first_occurrence(s, open@, 0) == Some(a as int)
                && first_occurrence(s, close@, 0) == Some(b as int) && a + open@.len() <= s.len()
                && b <= s.len()
        }),
{
    let ghost s = v@.subrange(from as int, v@.len() as int);
    let sv = string_of(v, from, v.len());
    let w = chars_of(sv.as_str());
    let o = chars_of(open);
    let c = chars_of(close);
    proof {
        lemma_first_occurrence(w@, o@, 0);
        lemma_first_occurrence(w@, c@, 0);
    }
    match find_from(&w, &o, 0) {
        None => None,
        Some(a) => match find_from(&w, &c, 0) {
            None => None,
            Some(b) => Some((a, b)),
        },
    }
}

/// Whether the first `close` of `v[from..]` does not come before the end
/// of its first `open`.
fn between_ok_at(v: &Vec<char>, from: usize, open: &str, close: &str) -> (ok: bool)
    requires
        from <= v@.len(),
    ensures
        ok == between_ok(v@.subrange(from as int, v@.len() as int), open@, close@),
{
    let n = v.len();
    let o = chars_of(open);
    match find_between(v, from, open, close) {
        Some((a, b)) => a + o.len() <= b,
        None => true,
    }
}

/// Whether `extract_string(xml, key)` can read its value.
pub fn extract_string_readable(xml: &str, key: &str) -> (ok: bool)
    ensures
        ok == extract_string_ok(xml@, key@),
{
    let x = chars_of(xml);
    match find_after_key(&x, key) {
        None => true,
        Some(i) => between_ok_at(&x, i, "<string>", "</string>"),
    }
}

/// Whether `extract_u64(xml, key)` can read its value.
pub fn extract_u64_readable(xml: &str, key: &str) -> (ok: bool)
    ensures
        ok == extract_u64_ok(xml@, key@),
{
    let x = chars_of(xml);
    match find_after_key(&x, key) {
        None => true,
        Some(i) => between_ok_at(&x, i, "<integer>", "</integer>"),
    }
}

/// Whether the value after KEY is `value` (see `spec_xml_contains`).
pub fn xml_contains(xml: &str, key: &str, value: &str) -> (r: bool)
    ensures
        r == spec_xml_contains(xml@, key@, value@),
{
    let x = chars_of(xml);
    match find_after_key(&x, key) {
        None => false,
        Some(i) => {
            let t0 = skip_white_space(&x, i);
            let t = string_of(&x, t0, x.len());
            if str_eq(value, "true") {
                starts_with_str(t.as_str(), "<true/>")
            } else if str_eq(value, "false") {
                starts_with_str(t.as_str(), "<false/>")
            } else {
                if !starts_with_str(t.as_str(), "<string>") {
                    return false;
                }
                let tv = chars_of(t.as_str());
                let close = chars_of("</string>");
                proof {
                    reveal_strlit("<string>");
                    lemma_first_occurrence(tv@, close@, 8);
                }
                match find_from(&tv, &close, 8) {
                    Some(b) => {
                        let inner = string_of(&tv, 8, b);
                        str_eq(inner.as_str(), value)
                    },
                    None => false,
                }
            }
        },
    }
}

/// The first `<string>` after KEY, trimmed, if non-empty.
pub fn extract_string(xml: &str, key: &str) -> (r: Option<String>)
    requires
        extract_string_ok(xml@, key@),
    ensures
        r.deep_view() == spec_extract_string(xml@, key@),
{
    let x = chars_of(xml);
    let n = x.len();
    match find_after_key(&x, key) {
        None => None,
        Some(i) => match find_between(&x, i, "<string>", "</string>") {
            Some((a, b)) => {
                proof {
                    reveal_strlit("<string>");
                    assert("<string>"@.len() == 8);
                }
                let inner = string_of(&x, i + a + 8, i + b);
                assert(inner@ =~= x@.subrange(i as int, x@.len() as int).subrange(a + 8, b as int));
                let v = trim_chars(inner.as_str());
                if v.as_str().is_empty() {
                    None
                } else {
                    Some(v)
                }
            },
            None => None,
        },
    }
}

/// The first `<integer>` after KEY, parsed.
pub fn extract_u64(xml: &str, key: &str) -> (r: Option<u64>)
    requires
        extract_u64_ok(xml@, key@),
    ensures
        r == spec_extract_u64(xml@, key@),
{
    let x = chars_of(xml);
    let n = x.len();
    match find_after_key(&x, key) {
        None => None,
        Some(i) => match find_between(&x, i, "<integer>", "</integer>") {
            Some((a, b)) => {
                proof {
                    reveal_strlit("<integer>");
                    assert("<integer>"@.len() == 9);
                }
                let inner = string_of(&x, i + a + 9, i + b);
                assert(inner@ =~= x@.subrange(i as int, x@.len() as int).subrange(a + 9, b as int));
                parse_u64(inner.as_str())
            },
            None => None,
        },
    }
}


/// `a`, else `b`.
pub open spec fn or_else<T>(a: Option<T>, b: Option<T>) -> Option<T> {
    match a {
        Some(x) => Some(x),
        None => b,
    }
}

/// The value, else `default`.
pub open spec fn unwrap_or<T>(a: Option<T>, default: T) -> T {
    match a {
        Some(x) => x,
        None => default,
    }
}

/// `s` without its ASCII spaces.
pub open spec fn without_spaces(s: Seq<char>) -> Seq<char> {
    s.filter(|c: char| c != ' ')
}

/// The facts that `parse_single_disk` reads from a disk's property list.
pub open spec fn disk_removable(x: Seq<char>) -> bool {
    spec_xml_contains(x, "Removable"@, "true"@) || spec_xml_contains(x, "RemovableMedia"@, "true"@)
        || spec_xml_contains(x, "Ejectable"@, "true"@)
}

pub open spec fn disk_internal(x: Seq<char>) -> bool {
    spec_xml_contains(x, "Internal"@, "true"@) || spec_xml_contains(x, "DeviceLocation"@, "Internal"@)
}

pub open spec fn disk_virtual(x: Seq<char>) -> bool {
    spec_xml_contains(x, "Virtual"@, "true"@) || spec_xml_contains(x, "Protocol"@, "Disk Image"@)
}

pub open spec fn disk_media_name(x: Seq<char>) -> Option<Seq<char>> {
    or_else(spec_extract_string(x, "MediaName"@), spec_extract_string(x, "IORegistryEntryName"@))
}

pub open spec fn disk_size(x: Seq<char>) -> u64 {
    unwrap_or(spec_extract_u64(x, "TotalSize"@), 0)
}

/// A usable serial number: not "Not Applicable", not "None", not empty.
pub open spec fn usable_serial(s: Seq<char>) -> bool {
    s != "Not Applicable"@ && s != "None"@ && s.len() > 0
}

/// The serial number, or a made-up identifier from model and size in GiB.
pub open spec fn disk_serial(x: Seq<char>) -> Seq<char> {
    match or_else(spec_extract_string(x, "SerialNumber"@), spec_extract_string(x, "UUID"@)) {
        Some(s) if usable_serial(s) => s,
        _ => "N/S-"@ + without_spaces(unwrap_or(disk_media_name(x), "Unknown"@)) + "-"@ + decimal(
            (disk_size(x) / 1_073_741_824) as nat,
        ) + "GB"@,
    }
}

/// The device that a disk's property list describes; `None` for disk
/// images and for internal disks that are not removable.
pub open spec fn spec_parse_single_disk(disk_id: Seq<char>, x: Seq<char>) -> Option<DeviceView> {
    if disk_virtual(x) || (!disk_removable(x) && disk_internal(x)) {
        None
    } else {
        Some(DeviceView {
            path: "/dev/r"@ + disk_id,
            volume_paths: Seq::empty(),
            model: unwrap_or(disk_media_name(x), "未知设备"@),
            serial: disk_serial(x),
            size_bytes: disk_size(x),
            removable: disk_removable(x),
            bus_type: unwrap_or(
                or_else(spec_extract_string(x, "Protocol"@), spec_extract_string(x, "BusProtocol"@)),
                "未知"@,
            ),
            is_system: spec_xml_contains(x, "Bootable"@, "true"@) && disk_internal(x),
        })
    }
}

/// Every lookup that `parse_single_disk` makes (in its order, and only
/// those it reaches) finds its closing tag after its opening tag.
pub open spec fn parse_single_disk_ok(x: Seq<char>) -> bool {
    &&& (disk_virtual(x) || (!disk_removable(x) && disk_internal(x)) || {
        &&& extract_string_ok(x, "MediaName"@)
        &&& (spec_extract_string(x, "MediaName"@) is Some || extract_string_ok(x, "IORegistryEntryName"@))
        &&& extract_string_ok(x, "SerialNumber"@)
        &&& (spec_extract_string(x, "SerialNumber"@) is Some || extract_string_ok(x, "UUID"@))
        &&& extract_u64_ok(x, "TotalSize"@)
        &&& extract_string_ok(x, "Protocol"@)
        &&& (spec_extract_string(x, "Protocol"@) is Some || extract_string_ok(x, "BusProtocol"@))
    })
}

fn first_string(xml: &str, key1: &str, key2: &str) -> (r: Option<String>)
    requires
        extract_string_ok(xml@, key1@),
        spec_extract_string(xml@, key1@) is None ==> extract_string_ok(xml@, key2@),
    ensures
        r.deep_view() == or_else(spec_extract_string(xml@, key1@), spec_extract_string(xml@, key2@)),
{
    match extract_string(xml, key1) {
        Some(s) => Some(s),
        None => extract_string(xml, key2),
    }
}

/// Whether `parse_single_disk` can read this property list (reading one
/// where it cannot would take a backwards slice, which panics).
pub fn parse_single_disk_readable(xml: &str) -> (ok: bool)
    ensures
        ok == parse_single_disk_ok(xml@),
{
    let is_removable = xml_contains(xml, "Removable", "true") || xml_contains(
        xml,
        "RemovableMedia",
        "true",
    ) || xml_contains(xml, "Ejectable", "true");
    let is_internal = xml_contains(xml, "Internal", "true") || xml_contains(
        xml,
        "DeviceLocation",
        "Internal",
    );
    let is_virtual = xml_contains(xml, "Virtual", "true") || xml_contains(xml, "Protocol", "Disk Image");
    if is_virtual || (!is_removable && is_internal) {
        return true;
    }
    extract_string_readable(xml, "MediaName") && (extract_string(xml, "MediaName").is_some()
        || extract_string_readable(xml, "IORegistryEntryName")) && extract_string_readable(
        xml,
        "SerialNumber",
    ) && (extract_string(xml, "SerialNumber").is_some() || extract_string_readable(xml, "UUID"))
        && extract_u64_readable(xml, "TotalSize") && extract_string_readable(xml, "Protocol") && (
    extract_string(xml, "Protocol").is_some() || extract_string_readable(xml, "BusProtocol"))
}

/// Copies `s` without its ASCII spaces (`str::replace(' ', "")`).
fn remove_spaces(s: &str) -> (r: String)
    ensures
        r@ == without_spaces(s@),
{
    let cs = chars_of(s);
    let mut r = String::new();
    let mut i: usize = 0;
    while i < cs.len()
        invariant
            cs@ == s@,
            i <= cs@.len(),
            r@ == cs@.subrange(0, i as int).filter(|c: char| c != ' '),
        decreases cs@.len() - i,
    {
        proof {
            let p = cs@.subrange(0, i + 1);
            assert(p.drop_last() =~= cs@.subrange(0, i as int));
            reveal_with_fuel(Seq::<_>::filter, 1);
        }
        if cs[i] != ' ' {
            push_char(&mut r, cs[i]);
        }
        i = i + 1;
    }
    assert(cs@.subrange(0, cs@.len() as int) =~= cs@);
    r
}

/// Reads the description of disk `disk_id` from `diskutil info -plist`.
pub fn parse_single_disk(disk_id: &str, xml: &str) -> (r: Option<Device>)
    requires
        parse_single_disk_ok(xml@),
    ensures
        match r {
            Some(d) => spec_parse_single_disk(disk_id@, xml@) == Some(d@),
            None => spec_parse_single_disk(disk_id@, xml@) is None,
        },
{
    let is_removable = xml_contains(xml, "Removable", "true") || xml_contains(
        xml,
        "RemovableMedia",
        "true",
    ) || xml_contains(xml, "Ejectable", "true");
    let is_internal = xml_contains(xml, "Internal", "true") || xml_contains(
        xml,
        "DeviceLocation",
        "Internal",
    );
    let is_system = xml_contains(xml, "Bootable", "true") && is_internal;
    let is_virtual = xml_contains(xml, "Virtual", "true") || xml_contains(xml, "Protocol", "Disk Image");
    if is_virtual {
        return None;
    }
    if !is_removable && is_internal {
        return None;
    }
    let model = match first_string(xml, "MediaName", "IORegistryEntryName") {
        Some(m) => m,
        None => String::from_str("未知设备"),
    };
    let serial_found = first_string(xml, "SerialNumber", "UUID");
    let usable = match &serial_found {
        Some(s) => !str_eq(s.as_str(), "Not Applicable") && !str_eq(s.as_str(), "None") && !s.as_str().is_empty(),
        None => false,
    };
    let serial = if usable {
        match serial_found {
            Some(s) => s,
            None => String::new(),
        }
    } else {
        let model_part = match first_string(xml, "MediaName", "IORegistryEntryName") {
            Some(m) => m,
            None => String::from_str("Unknown"),
        };
        let size = match extract_u64(xml, "TotalSize") {
            Some(n) => n,
            None => 0,
        };
        let mut s = String::from_str("N/S-");
        let compact = remove_spaces(model_part.as_str());
        push_str(&mut s, compact.as_str());
        push_str(&mut s, "-");
        push_decimal(&mut s, size / 1_073_741_824);
        push_str(&mut s, "GB");
        s
    };
    let size = match extract_u64(xml, "TotalSize") {
        Some(n) => n,
        None => 0,
    };
    let bus = match first_string(xml, "Protocol", "BusProtocol") {
        Some(b) => b,
        None => String::from_str("未知"),
    };
    let mut path = String::from_str("/dev/r");
    push_str(&mut path, disk_id);
    let d = Device {
        path,
        volume_paths: Vec::new(),
        model,
        serial,
        size_bytes: size,
        removable: is_removable,
        bus_type: bus,
        is_system,
    };
    assert(d.volume_paths@.map_values(|s: String| s@) =~= Seq::empty());
    Some(d)
}

/// Whether a diskutil identifier names a partition, "diskNsM": "disk",
/// a non-empty run of ASCII digits, 's', and a non-empty run of digits.
pub open spec fn spec_is_partition_id(id: Seq<char>) -> bool {
    &&& starts_with(id, "disk"@)
    &&& match first_occurrence(id, "s"@, 4) {
        Some(p) => {
            &&& p > 4
            &&& all_digits(id.subrange(4, p))
            &&& p + 1 < id.len()
            &&& all_digits(id.subrange(p + 1, id.len() as int))
        },
        None => false,
    }
}

/// Whether `v[lo..hi]` is all ASCII digits.
fn digits_between(v: &Vec<char>, lo: usize, hi: usize) -> (r: bool)
    requires
        lo <= hi <= v@.len(),
    ensures
        r == all_digits(v@.subrange(lo as int, hi as int)),
{
    let mut i = lo;
    while i < hi
        invariant
            lo <= i <= hi,
            hi <= v@.len(),
            forall|j: int| lo <= j < i ==> is_digit(v@[j]),
        decreases hi - i,
    {
        if !('0' <= v[i] && v[i] <= '9') {
            let ghost part = v@.subrange(lo as int, hi as int);
            assert(!is_digit(part[i - lo]));
            return false;
        }
        i = i + 1;
    }
    assert forall|j: int| 0 <= j < hi - lo implies is_digit(#[trigger] v@.subrange(lo as int, hi as int)[j]) by {
        assert(v@.subrange(lo as int, hi as int)[j] == v@[lo + j]);
    }
    true
}

pub fn is_partition_id(id: &str) -> (r: bool)
    ensures
        r == spec_is_partition_id(id@),
{
    if !starts_with_str(id, "disk") {
        return false;
    }
    let v = chars_of(id);
    let s = chars_of("s");
    proof {
        reveal_strlit("s");
        reveal_strlit("disk");
        lemma_first_occurrence(v@, s@, 4);
    }
    let n = v.len();
    match find_from(&v, &s, 4) {
        None => false,
        Some(p) => {
            if p <= 4 || p + 1 >= n {
                return false;
            }
            digits_between(&v, 4, p) && digits_between(&v, p + 1, n)
        },
    }
}

/// The characters of `s` up to its first ASCII space.
pub open spec fn up_to_space(s: Seq<char>) -> Seq<char>
    decreases s.len(),
{
    if s.len() == 0 || s[0] == ' ' {
        Seq::empty()
    } else {
        seq![s[0]] + up_to_space(s.drop_first())
    }
}

/// The disk named on one line of `diskutil list`: a line that starts with
/// "/dev/disk" names the disk up to the first space.
pub open spec fn text_line_disk(line: Seq<char>) -> Option<Seq<char>> {
    let t = trim(line);
    if !starts_with(t, "/dev/disk"@) {
        None
    } else {
        let id = strip_prefix_all(up_to_space(t), "/dev/"@);
        if spec_is_partition_id(id) || !starts_with(id, "disk"@) {
            None
        } else {
            Some(id)
        }
    }
}

/// Collects the disks named by the lines, each once, in order of first mention.
pub open spec fn collect_disks(lines: Seq<Seq<char>>) -> Seq<Seq<char>>
    decreases lines.len(),
{
    if lines.len() == 0 {
        Seq::empty()
    } else {
        let prev = collect_disks(lines.drop_last());
        match text_line_disk(lines.last()) {
            Some(id) => if prev.contains(id) {
                prev
            } else {
                prev.push(id)
            },
            None => prev,
        }
    }
}

fn up_to_space_of(s: &str) -> (r: String)
    ensures
        r@ == up_to_space(s@),
{
    let v = chars_of(s);
    let mut i: usize = 0;
    assert(v@.subrange(0, v@.len() as int) =~= v@);
    assert(v@.subrange(0, 0) + up_to_space(v@) =~= up_to_space(v@));
    while i < v.len() && v[i] != ' '
        invariant
            v@ == s@,
            i <= v@.len(),
            up_to_space(s@) == v@.subrange(0, i as int) + up_to_space(v@.subrange(i as int, v@.len() as int)),
        decreases v@.len() - i,
    {
        proof {
            let rest = v@.subrange(i as int, v@.len() as int);
            assert(rest.drop_first() =~= v@.subrange(i + 1, v@.len() as int));
            assert(v@.subrange(0, i + 1) =~= v@.subrange(0, i as int) + seq![rest[0]]);
        }
        i = i + 1;
    }
    proof {
        assert(v@.subrange(0, 0) =~= Seq::<char>::empty());
        let rest = v@.subrange(i as int, v@.len() as int);
        assert(up_to_space(rest) =~= Seq::<char>::empty());
    }
    string_of(&v, 0, i)
}

/// Whether the list holds this string.
fn holds(list: &Vec<String>, s: &str) -> (r: bool)
    ensures
        r == list@.map_values(|x: String| x@).contains(s@),
{
    let ghost lv = list@.map_values(|x: String| x@);
    let mut i: usize = 0;
    while i < list.len()
        invariant
            lv == list@.map_values(|x: String| x@),
            i <= list@.len(),
            forall|j: int| 0 <= j < i ==> lv[j] != s@,
        decreases list@.len() - i,
    {
        if str_eq(list[i].as_str(), s) {
            assert(lv[i as int] == s@);
            return true;
        }
        i = i + 1;
    }
    false
}

fn text_line_disk_of(line: &str) -> (r: Option<String>)
    ensures
        r.deep_view() == text_line_disk(line@),
{
    let t = trim_chars(line);
    if !starts_with_str(t.as_str(), "/dev/disk") {
        return None;
    }
    let dev = up_to_space_of(t.as_str());
    let id = trim_start_matches(dev.as_str(), "/dev/");
    if is_partition_id(id.as_str()) || !starts_with_str(id.as_str(), "disk") {
        None
    } else {
        Some(id)
    }
}

/// The whole disks listed by `diskutil list external physical`, each once.
pub fn extract_whole_disk_ids_from_text(text: &str) -> (ids: Vec<String>)
    ensures
        ids@.map_values(|s: String| s@) == collect_disks(split_lines(text@)),
{
    let lines = lines_of(text);
    let ghost lv = lines@.map_values(|l: String| l@);
    let mut ids: Vec<String> = Vec::new();
    let mut i: usize = 0;
    while i < lines.len()
        invariant
            lv == lines@.map_values(|l: String| l@),
            lv == split_lines(text@),
            i <= lines@.len(),
            ids@.map_values(|s: String| s@) == collect_disks(lv.subrange(0, i as int)),
        decreases lines@.len() - i,
    {
        let ghost prev = ids@.map_values(|s: String| s@);
        proof {
            let p = lv.subrange(0, i + 1);
            assert(p.drop_last() =~= lv.subrange(0, i as int));
            assert(p.last() == lines@[i as int]@);
        }
        match text_line_disk_of(lines[i].as_str()) {
            Some(id) => {
                if !holds(&ids, id.as_str()) {
                    ids.push(id);
                    assert(ids@.map_values(|s: String| s@) =~= prev.push(id@));
                }
            },
            None => {},
        }
        i = i + 1;
    }
    assert(lv.subrange(0, lines@.len() as int) =~= lv);
    ids
}

/// The disk named on one line of `diskutil list -plist`: the text from the
/// first "<string>disk" (without "<string>") to the first "</string>", if
/// it starts with "disk" and is not a partition ("diskNsM").
pub open spec fn plist_line_disk(line: Seq<char>) -> Option<Seq<char>> {
    let t = trim(line);
    match (first_occurrence(t, "<string>disk"@, 0), first_occurrence(t, "</string>"@, 0)) {
        (Some(a), Some(b)) => {
            let d = t.subrange(a + 8, b);
            if starts_with(d, "disk"@) && !spec_is_partition_id(d) {
                Some(d)
            } else {
                None
            }
        },
        _ => None,
    }
}

/// On every line the first "</string>" comes after the "<string>" tag of
/// the first "<string>disk" (else the disk name would be a backwards slice,
/// which panics).
pub open spec fn plist_line_ok(line: Seq<char>) -> bool {
    let t = trim(line);
    match (first_occurrence(t, "<string>disk"@, 0), first_occurrence(t, "</string>"@, 0)) {
        (Some(a), Some(b)) => a + 8 <= b,
        _ => true,
    }
}

pub open spec fn collect_plist_disks(lines: Seq<Seq<char>>) -> Seq<Seq<char>>
    decreases lines.len(),
{
    if lines.len() == 0 {
        Seq::empty()
    } else {
        let prev = collect_plist_disks(lines.drop_last());
        match plist_line_disk(lines.last()) {
            Some(id) => if prev.contains(id) {
                prev
            } else {
                prev.push(id)
            },
            None => prev,
        }
    }
}

/// Whether every line of the plist text can be read without a backwards slice.
pub open spec fn plist_ok(xml: Seq<char>) -> bool {
    forall|i: int| 0 <= i < split_lines(xml).len() ==> plist_line_ok(#[trigger] split_lines(xml)[i])
}

fn plist_line_disk_of(line: &str) -> (r: Option<String>)
    requires
        plist_line_ok(line@),
    ensures
        r.deep_view() == plist_line_disk(line@),
{
    let t = trim_chars(line);
    let v = chars_of(t.as_str());
    assert(v@.subrange(0, v@.len() as int) =~= v@);
    match find_between(&v, 0, "<string>disk", "</string>") {
        None => None,
        Some((a, b)) => {
            proof {
                reveal_strlit("<string>disk");
                assert("<string>disk"@.len() == 12);
            }
            let d = string_of(&v, a + 8, b);
            if starts_with_str(d.as_str(), "disk") && !is_partition_id(d.as_str()) {
                Some(d)
            } else {
                None
            }
        },
    }
}

/// Whether `extract_whole_disk_ids_from_plist` can read this text.
pub fn plist_readable(xml: &str) -> (ok: bool)
    ensures
        ok == plist_ok(xml@),
{
    let lines = lines_of(xml);
    let ghost lv = lines@.map_values(|l: String| l@);
    let mut i: usize = 0;
    while i < lines.len()
        invariant
            lv == lines@.map_values(|l: String| l@),
            lv == split_lines(xml@),
            i <= lines@.len(),
            forall|j: int| 0 <= j < i ==> plist_line_ok(#[trigger] lv[j]),
        decreases lines@.len() - i,
    {
        let t = trim_chars(lines[i].as_str());
        let v = chars_of(t.as_str());
        assert(v@.subrange(0, v@.len() as int) =~= v@);
        assert(lv[i as int] == lines@[i as int]@);
        proof {
            reveal_strlit("<string>disk");
        }
        let n = v.len();
        let found = find_between(&v, 0, "<string>disk", "</string>");
        let ok = match found {
            Some((a, b)) => {
                assert("<string>disk"@.len() == 12);
                assert(a + 12 <= n);
                a + 8 <= b
            },
            None => true,
        };
        if !ok {
            assert(!plist_line_ok(split_lines(xml@)[i as int]));
            return false;
        }
        i = i + 1;
    }
    true
}

/// The whole disks named in `diskutil list -plist`, each once.
pub fn extract_whole_disk_ids_from_plist(xml: &str) -> (ids: Vec<String>)
    requires
        plist_ok(xml@),
    ensures
        ids@.map_values(|s: String| s@) == collect_plist_disks(split_lines(xml@)),
{
    let lines = lines_of(xml);
    let ghost lv = lines@.map_values(|l: String| l@);
    let mut ids: Vec<String> = Vec::new();
    let mut i: usize = 0;
    while i < lines.len()
        invariant
            lv == lines@.map_values(|l: String| l@),
            lv == split_lines(xml@),
            plist_ok(xml@),
            i <= lines@.len(),
            ids@.map_values(|s: String| s@) == collect_plist_disks(lv.subrange(0, i as int)),
        decreases lines@.len() - i,
    {
        let ghost prev = ids@.map_values(|s: String| s@);
        proof {
            let p = lv.subrange(0, i + 1);
            assert(p.drop_last() =~= lv.subrange(0, i as int));
            assert(p.last() == lines@[i as int]@);
            assert(plist_line_ok(split_lines(xml@)[i as int]));
        }
        match plist_line_disk_of(lines[i].as_str()) {
            Some(id) => {
                if !holds(&ids, id.as_str()) {
                    ids.push(id);
                    assert(ids@.map_values(|s: String| s@) =~= prev.push(id@));
                }
            },
            None => {},
        }
        i = i + 1;
    }
    assert(lv.subrange(0, lines@.len() as int) =~= lv);
    ids
}

/// The disks read from `diskutil list -plist` are listed once each, none
/// is a partition, and every disk that a line names is listed.
pub proof fn lemma_plist_disk_ids_are_distinct(lines: Seq<Seq<char>>)
    ensures
        forall|i: int, j: int|
            0 <= i < j < collect_plist_disks(lines).len() ==> collect_plist_disks(lines)[i]
                != collect_plist_disks(lines)[j],
        forall|i: int|
            0 <= i < collect_plist_disks(lines).len() ==> starts_with(
                #[trigger] collect_plist_disks(lines)[i],
                "disk"@,
            ) && !spec_is_partition_id(collect_plist_disks(lines)[i]),
        forall|k: int|
            0 <= k < lines.len() && #[trigger] plist_line_disk(lines[k]) is Some
                ==> collect_plist_disks(lines).contains(plist_line_disk(lines[k])->0),
    decreases lines.len(),
{
    if lines.len() > 0 {
        let q = lines.drop_last();
        lemma_plist_disk_ids_are_distinct(q);
        let prev = collect_plist_disks(q);
        let cur = collect_plist_disks(lines);
        assert forall|k: int|
            0 <= k < lines.len() && #[trigger] plist_line_disk(lines[k]) is Some implies cur.contains(
                plist_line_disk(lines[k])->0,
            ) by {
            if k < lines.len() - 1 {
                assert(lines[k] == q[k]);
                let id = plist_line_disk(lines[k])->0;
                assert(prev.contains(id));
                let w = choose|w: int| 0 <= w < prev.len() && prev[w] == id;
                if cur != prev {
                    assert(cur[w] == prev[w]);
                }
            } else {
                assert(lines[k] == lines.last());
                let id = plist_line_disk(lines[k])->0;
                if !prev.contains(id) {
                    assert(cur[cur.len() - 1] == id);
                }
            }
        }
    }
}

/// The disks read from `diskutil list` are listed once each, all are
/// whole disks named "disk...", and every disk that a line names is listed.
pub proof fn lemma_disk_ids_are_distinct(lines: Seq<Seq<char>>)
    ensures
        forall|i: int, j: int|
            0 <= i < j < collect_disks(lines).len() ==> collect_disks(lines)[i] != collect_disks(lines)[j],
        forall|i: int|
            0 <= i < collect_disks(lines).len() ==> starts_with(#[trigger] collect_disks(lines)[i], "disk"@)
                && !spec_is_partition_id(collect_disks(lines)[i]),
        forall|k: int|
            0 <= k < lines.len() && #[trigger] text_line_disk(lines[k]) is Some ==> collect_disks(lines).contains(
                text_line_disk(lines[k])->0,
            ),
    decreases lines.len(),
{
    if lines.len() > 0 {
        let q = lines.drop_last();
        lemma_disk_ids_are_distinct(q);
        let prev = collect_disks(q);
        let cur = collect_disks(lines);
        assert forall|k: int|
            0 <= k < lines.len() && #[trigger] text_line_disk(lines[k]) is Some implies cur.contains(
                text_line_disk(lines[k])->0,
            ) by {
            if k < lines.len() - 1 {
                assert(lines[k] == q[k]);
                let id = text_line_disk(lines[k])->0;
                assert(prev.contains(id));
                let w = choose|w: int| 0 <= w < prev.len() && prev[w] == id;
                if cur != prev {
                    assert(cur[w] == prev[w]);
                }
            } else {
                assert(lines[k] == lines.last());
                let id = text_line_disk(lines[k])->0;
                if !prev.contains(id) {
                    assert(cur[cur.len() - 1] == id);
                }
            }
        }
    }
}

/// Which disks are listed from their property lists, and with which flags.
/// A disk is removable when its property list says so under `Removable`,
/// `RemovableMedia` or `Ejectable`; it is internal when it says so under
/// `Internal` or its `DeviceLocation` is "Internal". Disk images (under
/// `Virtual`, or with the "Disk Image" protocol) are never listed, nor are
/// internal disks that are not removable; every other disk is listed as
/// `/dev/rDISK`, with that removability, and as the system disk exactly
/// when it is bootable and internal. Its model is the `MediaName`, its bus
/// the `Protocol`, and its serial number the `SerialNumber` where that is a
/// real one (not "Not Applicable", "None" or empty). So an ejectable
/// external USB disk is listed as removable.
pub proof fn lemma_listed_disks(disk_id: Seq<char>, x: Seq<char>)
    ensures
        ({
            let removable = spec_xml_contains(x, "Removable"@, "true"@) || spec_xml_contains(
                x,
                "RemovableMedia"@,
                "true"@,
            ) || spec_xml_contains(x, "Ejectable"@, "true"@);
            let internal = spec_xml_contains(x, "Internal"@, "true"@) || spec_xml_contains(
                x,
                "DeviceLocation"@,
                "Internal"@,
            );
            let image = spec_xml_contains(x, "Virtual"@, "true"@) || spec_xml_contains(
                x,
                "Protocol"@,
                "Disk Image"@,
            );
            &&& spec_parse_single_disk(disk_id, x) is None <==> image || (!removable && internal)
            &&& spec_parse_single_disk(disk_id, x) matches Some(d) ==> {
                &&& d.path == "/dev/r"@ + disk_id
                &&& d.removable == removable
                &&& d.is_system == (spec_xml_contains(x, "Bootable"@, "true"@) && internal)
                &&& d.volume_paths.len() == 0
                &&& d.size_bytes == unwrap_or(spec_extract_u64(x, "TotalSize"@), 0)
                &&& (spec_extract_string(x, "MediaName"@) matches Some(m) ==> d.model == m)
                &&& (spec_extract_string(x, "Protocol"@) matches Some(p) ==> d.bus_type == p)
                &&& (spec_extract_string(x, "SerialNumber"@) matches Some(sn) ==> (sn != "Not Applicable"@
                    && sn != "None"@ && sn.len() > 0 ==> d.serial == sn))
            }
            &&& spec_xml_contains(x, "Ejectable"@, "true"@) && !image ==> (
            spec_parse_single_disk(disk_id, x) matches Some(d) && d.removable)
        }),
{
}

} // verus!
