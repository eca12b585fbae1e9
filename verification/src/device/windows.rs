//! How a Windows storage-device descriptor is read: the strings it holds at
//! given offsets, and the device that a physical drive number describes.

use vstd::prelude::*;
use vstd::string::*;
use vstd::utf8::*;
use crate::device::info::{Device, DeviceView};
use crate::text::{decimal, push_decimal, push_str, str_eq, trim, trim_chars};

verus! {

/// What std's `String::from_utf8_lossy` makes of some bytes: their text,
/// each invalid sequence replaced by U+FFFD.
pub uninterp spec fn utf8_lossy_text(bytes: Seq<u8>) -> Seq<char>;

/// std's `String::from_utf8_lossy`, made an owned string. Claimed: the
/// result depends on the bytes alone, and on valid UTF-8 it is exactly
/// the text that the bytes encode (as std documents).
#[verifier::external_body]
fn utf8_lossy(bytes: &[u8]) -> (s: String)
    ensures
        s@ == utf8_lossy_text(bytes@),
        valid_utf8(bytes@) ==> s@ == decode_utf8(bytes@),
{
    String::from_utf8_lossy(bytes).into_owned()
}

/// The first position at or after `from` that holds a NUL byte.
pub open spec fn first_nul(buf: Seq<u8>, from: int) -> Option<int>
    decreases buf.len() - from,
{
    if from < 0 || from >= buf.len() {
        None
    } else if buf[from] == 0 {
        Some(from)
    } else {
        first_nul(buf, from + 1)
    }
}

/// Where a string that starts at `start` ends: at its NUL byte, or 32
/// bytes on when there is none.
pub open spec fn text_end(buf: Seq<u8>, start: int) -> int {
    match first_nul(buf, start) {
        Some(p) => p,
        None => start + 32,
    }
}

/// Whether the string at `offset` can be read: no string is there, or it
/// ends inside the buffer.
pub open spec fn readable_at(buf: Seq<u8>, offset: u32) -> bool {
    offset == 0 || offset >= buf.len() || text_end(buf, offset as int) <= buf.len()
}

/// The text of the string at `start`, without surrounding white space.
pub open spec fn text_at(buf: Seq<u8>, start: int) -> Seq<char> {
    trim(utf8_lossy_text(buf.subrange(start, text_end(buf, start))))
}

/// One part of a descriptor's model name: the string at `offset`, when the
/// offset points into the buffer and the string is not empty.
pub open spec fn model_part(buf: Seq<u8>, offset: u32) -> Option<Seq<char>> {
    if offset > 0 && offset < buf.len() && text_end(buf, offset as int) > offset {
        Some(text_at(buf, offset as int))
    } else {
        None
    }
}

/// The parts that are there, separated by a space.
pub open spec fn joined(a: Option<Seq<char>>, b: Option<Seq<char>>) -> Seq<char> {
    match (a, b) {
        (Some(x), Some(y)) => x + " "@ + y,
        (Some(x), None) => x,
        (None, Some(y)) => y,
        (None, None) => ""@,
    }
}

/// The position of the first NUL byte at or after `start`, if any.
fn find_nul(buf: &[u8], start: usize) -> (r: Option<usize>)
    requires
        start <= buf@.len(),
    ensures
        match r {
            Some(p) => first_nul(buf@, start as int) == Some(p as int) && start <= p < buf@.len(),
            None => first_nul(buf@, start as int) is None,
        },
{
    let n = buf.len();
    let mut i = start;
    while i < n
        invariant
            start <= i <= n,
            n == buf@.len(),
            first_nul(buf@, start as int) == first_nul(buf@, i as int),
        decreases n - i,
    {
        if buf[i] == 0 {
            return Some(i);
        }
        i = i + 1;
    }
    None
}

/// The bytes `buf[lo..hi]`.
fn bytes_between(buf: &[u8], lo: usize, hi: usize) -> (r: Vec<u8>)
    requires
        lo <= hi <= buf@.len(),
    ensures
        r@ == buf@.subrange(lo as int, hi as int),
{
    let mut r: Vec<u8> = Vec::new();
    let mut i = lo;
    while i < hi
        invariant
            lo <= i <= hi,
            hi <= buf@.len(),
            r@ == buf@.subrange(lo as int, i as int),
        decreases hi - i,
    {
        r.push(buf[i]);
        i = i + 1;
    }
    r
}

/// Whether the string at `offset` can be read (see `readable_at`).
pub fn descriptor_readable(buf: &[u8], offset: u32) -> (ok: bool)
    ensures
        ok == readable_at(buf@, offset),
{
    let n = buf.len();
    if offset == 0 || offset as usize >= n {
        return true;
    }
    let start = offset as usize;
    match find_nul(buf, start) {
        Some(_) => true,
        None => start <= n && n - start >= 32,
    }
}

/// The text of the string that starts at `start`.
fn read_text(buf: &[u8], start: usize) -> (r: String)
    requires
        start < buf@.len(),
        text_end(buf@, start as int) <= buf@.len(),
    ensures
        r@ == text_at(buf@, start as int),
{
    let n = buf.len();
    let end = match find_nul(buf, start) {
        Some(p) => p,
        None => {
            assert(start + 32 <= n);
            start + 32
        },
    };
    assert(end == text_end(buf@, start as int));
    let bytes = bytes_between(buf, start, end);
    let slice = bytes.as_slice();
    assert(slice@ == buf@.subrange(start as int, end as int));
    let text = utf8_lossy(slice);
    trim_chars(text.as_str())
}

/// A device's model name from its descriptor: the vendor string and the
/// product string, each when present, joined by a space.
pub fn extract_string_from_buf(buf: &[u8], offset1: u32, offset2: u32) -> (s: String)
    requires
        readable_at(buf@, offset1),
        readable_at(buf@, offset2),
    ensures
        s@ == joined(model_part(buf@, offset1), model_part(buf@, offset2)),
{
    let first = model_part_of(buf, offset1);
    let second = model_part_of(buf, offset2);
    match (first, second) {
        (Some(x), Some(y)) => {
            let mut s = x;
            push_str(&mut s, " ");
            push_str(&mut s, y.as_str());
            assert(s@ == x@ + " "@ + y@);
            s
        },
        (Some(x), None) => x,
        (None, Some(y)) => y,
        (None, None) => {
            let s = String::new();
            proof {
                reveal_strlit("");
            }
            assert(s@ =~= ""@);
            s
        },
    }
}

fn model_part_of(buf: &[u8], offset: u32) -> (r: Option<String>)
    requires
        readable_at(buf@, offset),
    ensures
        match r {
            Some(t) => model_part(buf@, offset) == Some(t@),
            None => model_part(buf@, offset) is None,
        },
{
    let n = buf.len();
    if offset > 0 && (offset as usize) < n {
        let start = offset as usize;
        let end = match find_nul(buf, start) {
            Some(p) => p,
            None => {
                assert(start + 32 <= n);
                start + 32
            },
        };
        assert(end == text_end(buf@, start as int));
        if end > start {
            let t = read_text(buf, start);
            return Some(t);
        }
    }
    None
}

/// A device's serial number from its descriptor: the string at `offset`,
/// or "无序列号" (no serial number) when the offset points nowhere.
pub fn extract_string_from_buf_single(buf: &[u8], offset: u32) -> (s: String)
    requires
        readable_at(buf@, offset),
    ensures
        s@ == (if offset == 0 || offset >= buf@.len() {
            "无序列号"@
        } else {
            text_at(buf@, offset as int)
        }),
{
    let n = buf.len();
    if offset == 0 || offset as usize >= n {
        return String::from_str("无序列号");
    }
    read_text(buf, offset as usize)
}

/// Whether physical drive `index` is the system disk (the first one).
pub fn check_windows_system_disk(index: u32) -> (r: bool)
    ensures
        r == (index == 0),
{
    index == 0
}

/// The raw path of physical drive `index`: `\\.\PhysicalDriveN`.
pub open spec fn spec_physical_drive_path(index: u32) -> Seq<char> {
    "\\\\.\\PhysicalDrive"@ + decimal(index as nat)
}

pub fn physical_drive_path(index: u32) -> (p: String)
    ensures
        p@ == spec_physical_drive_path(index),
{
    let mut p = String::from_str("\\\\.\\PhysicalDrive");
    push_decimal(&mut p, index as u64);
    p
}

/// The device that a physical drive's descriptor describes: drives that
/// are neither removable media nor on a USB or SD bus are left out; a
/// drive on USB counts as removable.
pub open spec fn spec_windows_device(
    index: u32,
    removable_media: bool,
    bus: Seq<char>,
    model: Seq<char>,
    serial: Seq<char>,
    size: u64,
) -> Option<DeviceView> {
    if !removable_media && bus != "USB"@ && bus != "SD"@ {
        None
    } else {
        Some(DeviceView {
            path: spec_physical_drive_path(index),
            volume_paths: seq![spec_physical_drive_path(index)],
            model,
            serial,
            size_bytes: size,
            removable: removable_media || bus == "USB"@,
            bus_type: bus,
            is_system: index == 0,
        })
    }
}

pub fn windows_device(
    index: u32,
    removable_media: bool,
    bus: &str,
    model: String,
    serial: String,
    size: u64,
) -> (r: Option<Device>)
    ensures
        r.is_some() == spec_windows_device(index, removable_media, bus@, model@, serial@, size).is_some(),
        r matches Some(d) ==> spec_windows_device(index, removable_media, bus@, model@, serial@, size)
            == Some(d@),
{
    let usb = str_eq(bus, "USB");
    let sd = str_eq(bus, "SD");
    let is_system = check_windows_system_disk(index);
    if !removable_media && !usb && !sd {
        return None;
    }
    let path = physical_drive_path(index);
    let mut volume_paths: Vec<String> = Vec::new();
    volume_paths.push(physical_drive_path(index));
    let d = Device {
        path,
        volume_paths,
        model,
        serial,
        size_bytes: size,
        removable: removable_media || usb,
        bus_type: String::from_str(bus),
        is_system,
    };
    assert(d@.volume_paths =~= seq![spec_physical_drive_path(index)]);
    Some(d)
}

/// Which physical drives are listed: those with removable media or on a
/// USB or SD bus, and no others. A listed drive is `\\.\PhysicalDriveN`,
/// counts as removable when its media is removable or it is on USB, keeps
/// the bus, model, serial number and size it was given, and is the system
/// disk exactly when it is drive 0.
pub proof fn lemma_listed_drives(
    index: u32,
    removable_media: bool,
    bus: Seq<char>,
    model: Seq<char>,
    serial: Seq<char>,
    size: u64,
)
    ensures
        spec_windows_device(index, removable_media, bus, model, serial, size) is Some <==> (removable_media
            || bus == "USB"@ || bus == "SD"@),
        spec_windows_device(index, removable_media, bus, model, serial, size) matches Some(d) ==> {
            &&& d.path == "\\\\.\\PhysicalDrive"@ + decimal(index as nat)
            &&& d.removable == (removable_media || bus == "USB"@)
            &&& d.is_system == (index == 0)
            &&& d.bus_type == bus
            &&& d.model == model
            &&& d.serial == serial
            &&& d.size_bytes == size
        },
{
}

} // verus!
