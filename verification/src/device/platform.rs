//! Which devices may be wiped, and how the platforms' descriptions are read.

use vstd::prelude::*;
use crate::device::info::{Device, DeviceView, devices_view};
use crate::error::PurgeError;
use crate::text::{
    lines_of, second_word, split_lines, strip_prefix_all, trim_start_matches, words, string_of,
    chars_of, contains_seq, contains_str, parse_u64, push_str, spec_parse_u64, starts_with,
    starts_with_str, str_eq, trim, trim_chars,
};
use crate::audit::entry::LogStatus;
use vstd::string::*;

verus! {

/// A device that may be offered for wiping: removable and not the system disk.
pub open spec fn is_wipe_candidate(d: DeviceView) -> bool {
    d.removable && !d.is_system
}

/// Keeps the devices that may be offered for wiping, in their order.
pub fn wipe_candidates(devices: &Vec<Device>) -> (r: Vec<Device>)
    ensures
        devices_view(r@) == devices_view(devices@).filter(|d: DeviceView| is_wipe_candidate(d)),
{
    let ghost pred = |d: DeviceView| is_wipe_candidate(d);
    let mut r: Vec<Device> = Vec::new();
    let mut i: usize = 0;
    while i < devices.len()
        invariant
            i <= devices.len(),
            pred == (|d: DeviceView| is_wipe_candidate(d)),
            devices_view(r@) == devices_view(devices@.subrange(0, i as int)).filter(pred),
        decreases devices.len() - i,
    {
        let ghost old_r = r@;
        let ghost prefix = devices_view(devices@.subrange(0, i as int));
        let ghost next = devices_view(devices@.subrange(0, i + 1));
        proof {
            assert(next.drop_last() =~= prefix);
            assert(next.last() == devices@[i as int]@);
            reveal_with_fuel(Seq::<_>::filter, 1);
            assert(next.filter(pred) == if pred(next.last()) {
                prefix.filter(pred).push(next.last())
            } else {
                prefix.filter(pred)
            });
        }
        if devices[i].removable && !devices[i].is_system {
            let d = devices[i].copy();
            r.push(d);
            assert(devices_view(r@) =~= devices_view(old_r).push(d@));
            assert(pred(next.last()));
            assert(devices_view(r@) == next.filter(pred));
        } else {
            assert(!pred(next.last()));
            assert(devices_view(r@) == next.filter(pred));
        }
        i = i + 1;
    }
    assert(devices@.subrange(0, devices.len() as int) =~= devices@);
    r
}

/// Whether some device of the list has this path.
pub open spec fn listed(devices: Seq<Device>, path: Seq<char>) -> bool {
    exists|i: int| 0 <= i < devices.len() && devices[i].path@ == path
}

/// The first device of the list with this path.
pub open spec fn first_with_path(devices: Seq<Device>, path: Seq<char>) -> int
    decreases devices.len(),
{
    if devices.len() == 0 {
        0
    } else if devices[0].path@ == path {
        0
    } else {
        1 + first_with_path(devices.drop_first(), path)
    }
}

/// Index of the first device with this path, if any.
pub fn find_device(devices: &Vec<Device>, path: &str) -> (r: Option<usize>)
    ensures
        r is None <==> !listed(devices@, path@),
        r matches Some(i) ==> i < devices@.len() && devices@[i as int].path@ == path@
            && forall|j: int| 0 <= j < i ==> devices@[j].path@ != path@,
{
    let mut i: usize = 0;
    while i < devices.len()
        invariant
            i <= devices.len(),
            forall|j: int| 0 <= j < i ==> devices@[j].path@ != path@,
        decreases devices.len() - i,
    {
        if str_eq(devices[i].path.as_str(), path) {
            return Some(i);
        }
        i = i + 1;
    }
    None
}


/// `i` is the first position of the list holding a device with this path.
pub open spec fn first_index_with_path(devices: Seq<DeviceView>, path: Seq<char>, i: int) -> bool {
    0 <= i < devices.len() && devices[i].path == path && forall|j: int|
        0 <= j < i ==> devices[j].path != path
}

/// Checks that a device may be opened for wiping: it must be listed (among
/// the removable devices) and must not be the system disk.
pub fn check_open_target(devices: &Vec<Device>, path: &str) -> (r: Result<(), PurgeError>)
    ensures
        (forall|i: int| 0 <= i < devices@.len() ==> devices@[i].path@ != path@) ==> (r matches Err(
            PurgeError::DeviceNotFound(m),
        ) && m@ == "设备 "@ + path@ + " 未在可移动设备列表中找到"@),
        forall|i: int|
            first_index_with_path(devices_view(devices@), path@, i) ==> (if devices@[i].is_system {
                r matches Err(PurgeError::SystemDiskForbidden(m)) && m@ == path@
            } else {
                r is Ok
            }),
{
    match find_device(devices, path) {
        None => {
            let mut m = String::from_str("设备 ");
            push_str(&mut m, path);
            push_str(&mut m, " 未在可移动设备列表中找到");
            Err(PurgeError::DeviceNotFound(m))
        },
        Some(i) => {
            proof {
                assert forall|k: int| first_index_with_path(devices_view(devices@), path@, k) implies k == i by {
                    if k < i {
                        assert(devices_view(devices@)[k].path == devices@[k].path@);
                    } else if k > i {
                        assert(devices_view(devices@)[i as int].path == devices@[i as int].path@);
                    }
                }
            }
            if devices[i].is_system {
                Err(PurgeError::SystemDiskForbidden(String::from_str(path)))
            } else {
                Ok(())
            }
        },
    }
}

/// The message shown when a device could not be opened.
pub fn open_failure_message(e: &PurgeError) -> (m: String)
    ensures
        !(e is IoError) ==> m@ == if e is PermissionDenied {
            e.spec_message() + "\n提示: 请使用 sudo 运行此程序"@
        } else {
            "打开设备失败: "@ + e.spec_message()
        },
        e is IoError ==> m@.len() >= ("打开设备失败: "@ + e.spec_message()).len() && m@.subrange(
            0,
            ("打开设备失败: "@ + e.spec_message()).len() as int,
        ) == "打开设备失败: "@ + e.spec_message(),
{
    let text = e.message();
    match e {
        PurgeError::PermissionDenied(_) => {
            let mut m = text;
            push_str(&mut m, "\n提示: 请使用 sudo 运行此程序");
            m
        },
        _ => {
            let mut m = String::from_str("打开设备失败: ");
            push_str(&mut m, text.as_str());
            m
        },
    }
}

/// The status recorded when a command-line wipe did not complete: the
/// operator cancelled it if its message mentions "取消" (cancel), else it
/// was interrupted.
pub fn status_for_failure(message: &str) -> (s: LogStatus)
    ensures
        s == if contains_seq(message@, "取消"@) {
            LogStatus::Cancelled
        } else {
            LogStatus::Interrupted
        },
{
    if contains_str(message, "取消") {
        LogStatus::Cancelled
    } else {
        LogStatus::Interrupted
    }
}

// ---------------------------------------------------------------- Linux

/// Block devices worth looking at: names starting with "sd" or "nvme".
pub fn is_block_candidate(name: &str) -> (r: bool)
    ensures
        r == (starts_with(name@, "sd"@) || starts_with(name@, "nvme"@)),
{
    starts_with_str(name, "sd") || starts_with_str(name, "nvme")
}

/// The attributes of a block device read from /sys/block/NAME (each `None`
/// when the file could not be read).
pub struct SysfsAttributes {
    /// /sys/block/NAME/removable
    pub removable: Option<String>,
    /// /sys/block/NAME/size, in 512-byte sectors
    pub size: Option<String>,
    /// /sys/block/NAME/device/model
    pub model: Option<String>,
    /// /sys/block/NAME/device/serial
    pub serial: Option<String>,
    /// /sys/block/NAME/device/vpd_pg80
    pub vpd_pg80: Option<String>,
    /// /sys/block/NAME/device/vendor
    pub vendor: Option<String>,
}

/// The attribute without surrounding white space, or `default`.
pub open spec fn trimmed_or(o: Option<String>, default: Seq<char>) -> Seq<char> {
    match o {
        Some(v) => trim(v@),
        None => default,
    }
}

/// Whether the "removable" attribute reads "1".
pub open spec fn sysfs_removable(a: SysfsAttributes) -> bool {
    match a.removable {
        Some(v) => trim(v@) == "1"@,
        None => false,
    }
}

/// The size attribute in sectors (0 when missing or not a number).
pub open spec fn sysfs_sectors(a: SysfsAttributes) -> u64 {
    match a.size {
        Some(v) => match spec_parse_u64(trim(v@)) {
            Some(n) => n,
            None => 0,
        },
        None => 0,
    }
}

/// The serial number attribute, else the VPD page 0x80.
pub open spec fn sysfs_serial(a: SysfsAttributes) -> Option<String> {
    match a.serial {
        Some(v) => Some(v),
        None => a.vpd_pg80,
    }
}

/// The device that /sys/block describes: removable devices of at least
/// 64 MiB only.
pub open spec fn spec_sysfs_device(name: Seq<char>, a: SysfsAttributes, is_system: bool) -> Option<DeviceView> {
    if !sysfs_removable(a) {
        None
    } else {
        let size = (sysfs_sectors(a) * 512) as u64;
        if size < 64 * 1024 * 1024 {
            None
        } else {
            let vendor = trimmed_or(a.vendor, ""@);
            Some(DeviceView {
                path: "/dev/"@ + name,
                volume_paths: Seq::empty(),
                model: trimmed_or(a.model, "未知设备"@),
                serial: trimmed_or(sysfs_serial(a), "无序列号"@),
                size_bytes: size,
                removable: true,
                bus_type: if contains_seq(vendor, "USB"@) || starts_with(name, "sd"@) {
                    "USB"@
                } else {
                    "未知"@
                },
                is_system,
            })
        }
    }
}

fn trimmed_or_default(o: &Option<String>, default: &str) -> (r: String)
    ensures
        r@ == trimmed_or(*o, default@),
{
    match o {
        Some(v) => trim_chars(v.as_str()),
        None => String::from_str(default),
    }
}

/// Whether `parse_sysfs_device` can read these attributes: the byte size of
/// a removable device must fit in 64 bits.
pub fn sysfs_readable(attrs: &SysfsAttributes) -> (ok: bool)
    ensures
        ok == (sysfs_removable(*attrs) ==> sysfs_sectors(*attrs) * 512 <= u64::MAX),
{
    let removable = match &attrs.removable {
        Some(v) => {
            let t = trim_chars(v.as_str());
            str_eq(t.as_str(), "1")
        },
        None => false,
    };
    if !removable {
        return true;
    }
    let sectors: u64 = match &attrs.size {
        Some(v) => {
            let t = trim_chars(v.as_str());
            match parse_u64(t.as_str()) {
                Some(n) => n,
                None => 0,
            }
        },
        None => 0,
    };
    sectors <= u64::MAX / 512
}

/// Reads the description of a block device from its /sys/block attributes.
/// Sector counts whose byte size does not fit in 64 bits are left out
/// (`sysfs_readable` tells them apart).
pub fn parse_sysfs_device(name: &str, attrs: &SysfsAttributes, is_system: bool) -> (r: Option<Device>)
    requires
        sysfs_removable(*attrs) ==> sysfs_sectors(*attrs) * 512 <= u64::MAX,
    ensures
        match r {
            Some(d) => spec_sysfs_device(name@, *attrs, is_system) == Some(d@),
            None => spec_sysfs_device(name@, *attrs, is_system) is None,
        },
{
    let removable = match &attrs.removable {
        Some(v) => {
            let t = trim_chars(v.as_str());
            str_eq(t.as_str(), "1")
        },
        None => false,
    };
    if !removable {
        return None;
    }
    let sectors: u64 = match &attrs.size {
        Some(v) => {
            let t = trim_chars(v.as_str());
            match parse_u64(t.as_str()) {
                Some(n) => n,
                None => 0,
            }
        },
        None => 0,
    };
    let size_bytes = sectors * 512;
    if size_bytes < 64 * 1024 * 1024 {
        return None;
    }
    let model = trimmed_or_default(&attrs.model, "未知设备");
    let serial = match &attrs.serial {
        Some(v) => trim_chars(v.as_str()),
        None => trimmed_or_default(&attrs.vpd_pg80, "无序列号"),
    };
    let vendor = trimmed_or_default(&attrs.vendor, "");
    let bus = if contains_str(vendor.as_str(), "USB") || starts_with_str(name, "sd") {
        String::from_str("USB")
    } else {
        String::from_str("未知")
    };
    let mut path = String::from_str("/dev/");
    push_str(&mut path, name);
    let d = Device {
        path,
        volume_paths: Vec::new(),
        model,
        serial,
        size_bytes,
        removable: true,
        bus_type: bus,
        is_system,
    };
    assert(d.volume_paths@.map_values(|s: String| s@) =~= Seq::empty());
    Some(d)
}


/// Whether the mount table mounts a partition of disk `name` on "/": a
/// line that starts with "/dev/NAME" and holds " / ".
pub open spec fn spec_is_system_disk(name: Seq<char>, mounts: Seq<char>) -> bool {
    exists|i: int|
        0 <= i < split_lines(mounts).len() && starts_with(#[trigger] split_lines(mounts)[i], "/dev/"@ + name)
            && contains_seq(split_lines(mounts)[i], " / "@)
}

/// Whether disk `name` holds the root file system, from the text of
/// /proc/mounts (`None` when it could not be read: then it does not).
pub fn check_is_system_disk(name: &str, mounts: Option<&str>) -> (r: bool)
    ensures
        r == (mounts is Some && spec_is_system_disk(name@, mounts->0@)),
{
    match mounts {
        None => false,
        Some(m) => {
            let lines = lines_of(m);
            let ghost lv = lines@.map_values(|l: String| l@);
            let mut prefix = String::from_str("/dev/");
            push_str(&mut prefix, name);
            let mut i: usize = 0;
            while i < lines.len()
                invariant
                    mounts == Some(m),
                    lv == lines@.map_values(|l: String| l@),
                    lv == split_lines(m@),
                    prefix@ == "/dev/"@ + name@,
                    i <= lines@.len(),
                    forall|j: int| 0 <= j < i ==> !(starts_with(#[trigger] lv[j], prefix@) && contains_seq(lv[j], " / "@)),
                decreases lines@.len() - i,
            {
                assert(lv[i as int] == lines@[i as int]@);
                if starts_with_str(lines[i].as_str(), prefix.as_str()) && contains_str(lines[i].as_str(), " / ") {
                    assert(starts_with(split_lines(m@)[i as int], "/dev/"@ + name@));
                    assert(contains_seq(split_lines(m@)[i as int], " / "@));
                    return true;
                }
                i = i + 1;
            }
            false
        },
    }
}

/// The mount points of the partitions of disk `disk_name`: the second word
/// of each line of the mount table that starts with "/dev/DISK_NAME".
pub open spec fn spec_mount_points(mounts: Seq<char>, disk_name: Seq<char>) -> Seq<Seq<char>> {
    split_lines(mounts).filter(|l: Seq<char>| starts_with(l, "/dev/"@ + disk_name) && words(l).len() >= 2).map_values(
        |l: Seq<char>| words(l)[1],
    )
}

/// Where the partitions of a disk are mounted, from /proc/mounts.
pub fn mount_points(mounts: &str, disk_name: &str) -> (r: Vec<String>)
    ensures
        r@.map_values(|s: String| s@) == spec_mount_points(mounts@, disk_name@),
{
    let lines = lines_of(mounts);
    let ghost lv = lines@.map_values(|l: String| l@);
    let mut prefix = String::from_str("/dev/");
    push_str(&mut prefix, disk_name);
    let ghost pred = |l: Seq<char>| starts_with(l, "/dev/"@ + disk_name@) && words(l).len() >= 2;
    let ghost f = |l: Seq<char>| words(l)[1];
    let mut r: Vec<String> = Vec::new();
    let mut i: usize = 0;
    while i < lines.len()
        invariant
            lv == lines@.map_values(|l: String| l@),
            lv == split_lines(mounts@),
            prefix@ == "/dev/"@ + disk_name@,
            pred == (|l: Seq<char>| starts_with(l, "/dev/"@ + disk_name@) && words(l).len() >= 2),
            f == (|l: Seq<char>| words(l)[1]),
            i <= lines@.len(),
            r@.map_values(|s: String| s@) == lv.subrange(0, i as int).filter(pred).map_values(f),
        decreases lines@.len() - i,
    {
        let ghost old_r = r@;
        let ghost next = lv.subrange(0, i + 1);
        proof {
            assert(next.drop_last() =~= lv.subrange(0, i as int));
            assert(next.last() == lines@[i as int]@);
            reveal_with_fuel(Seq::<_>::filter, 1);
        }
        if starts_with_str(lines[i].as_str(), prefix.as_str()) {
            match second_word(lines[i].as_str()) {
                Some(w) => {
                    r.push(w);
                    assert(r@.map_values(|s: String| s@) =~= old_r.map_values(|s: String| s@).push(w@));
                    assert(next.filter(pred) == lv.subrange(0, i as int).filter(pred).push(next.last()));
                    assert(next.filter(pred).map_values(f) =~= lv.subrange(0, i as int).filter(pred).map_values(f).push(f(next.last())));
                },
                None => {},
            }
        }
        i = i + 1;
    }
    assert(lv.subrange(0, lines@.len() as int) =~= lv);
    r
}

/// The diskutil name of a device path: "/dev/rdisk4" and "/dev/disk4" both give "disk4".
pub open spec fn spec_disk_id(path: Seq<char>) -> Seq<char> {
    strip_prefix_all(strip_prefix_all(path, "/dev/r"@), "/dev/"@)
}

pub fn disk_id_from_path(path: &str) -> (id: String)
    ensures
        id@ == spec_disk_id(path@),
{
    let a = trim_start_matches(path, "/dev/r");
    trim_start_matches(a.as_str(), "/dev/")
}

/// Decides what a failed `diskutil unmountDisk force` means: an error only
/// if neither output mentions "failed" (partial failures are tolerated).
pub fn unmount_failure(success: bool, stdout: &str, stderr: &str) -> (e: Option<PurgeError>)
    ensures
        (success || contains_seq(stderr@, "failed"@) || contains_seq(stdout@, "failed"@)) ==> e is None,
        !(success || contains_seq(stderr@, "failed"@) || contains_seq(stdout@, "failed"@)) ==> (e matches Some(
            PurgeError::DeviceInfoError(m),
        ) && m@ == "卸载设备失败: "@ + stdout@ + stderr@),
{
    if success || contains_str(stderr, "failed") || contains_str(stdout, "failed") {
        None
    } else {
        let mut m = String::from_str("卸载设备失败: ");
        push_str(&mut m, stdout);
        push_str(&mut m, stderr);
        Some(PurgeError::DeviceInfoError(m))
    }
}

/// Decides what the outcome of `diskutil partitionDisk` means.
pub fn reformat_failure(success: bool, stdout: &str, stderr: &str) -> (e: Option<PurgeError>)
    ensures
        success ==> e is None,
        !success ==> (e matches Some(PurgeError::DeviceInfoError(m)) && m@ == "重新格式化失败: "@ + stdout@
            + stderr@),
{
    if success {
        None
    } else {
        let mut m = String::from_str("重新格式化失败: ");
        push_str(&mut m, stdout);
        push_str(&mut m, stderr);
        Some(PurgeError::DeviceInfoError(m))
    }
}

/// The path that the Linux reformatting works on: a macOS raw device path
/// "/dev/rdiskN" becomes "/dev/diskN"; any other path stays.
pub open spec fn spec_linux_reformat_path(path: Seq<char>) -> Seq<char> {
    if starts_with(path, "/dev/r"@) {
        "/dev/"@ + path.subrange(6, path.len() as int)
    } else {
        path
    }
}

pub fn linux_reformat_path(path: &str) -> (p: String)
    ensures
        p@ == spec_linux_reformat_path(path@),
{
    if starts_with_str(path, "/dev/r") {
        proof {
            reveal_strlit("/dev/r");
        }
        let cs = chars_of(path);
        let rest = string_of(&cs, 6, cs.len());
        let mut p = String::from_str("/dev/");
        push_str(&mut p, rest.as_str());
        p
    } else {
        String::from_str(path)
    }
}

/// The first partition of a disk on Linux: the disk path followed by "1".
pub fn first_partition(disk_path: &str) -> (p: String)
    ensures
        p@ == disk_path@ + "1"@,
{
    let mut p = String::from_str(disk_path);
    push_str(&mut p, "1");
    p
}

/// The error for a device that could not be opened for writing on macOS
/// or Linux: a refused permission becomes `PermissionDenied` with advice to
/// run under sudo; any other failure is passed on as an I/O error.
pub fn unix_open_error(path: &str, permission_denied: bool, e: std::io::Error) -> (r: PurgeError)
    ensures
        permission_denied ==> (r matches PurgeError::PermissionDenied(m) && m@ == "无法打开设备 "@
            + path@ + ". 请使用 sudo 运行"@),
        !permission_denied ==> r is IoError,
{
    if permission_denied {
        let mut m = String::from_str("无法打开设备 ");
        push_str(&mut m, path);
        push_str(&mut m, ". 请使用 sudo 运行");
        PurgeError::PermissionDenied(m)
    } else {
        PurgeError::IoError(e)
    }
}

/// The same decision on Windows, where the advice is to run as
/// administrator.
pub fn windows_open_error(permission_denied: bool, e: std::io::Error) -> (r: PurgeError)
    ensures
        permission_denied ==> (r matches PurgeError::PermissionDenied(m) && m@
            == "无法打开设备. 请以管理员身份运行"@),
        !permission_denied ==> r is IoError,
{
    if permission_denied {
        PurgeError::PermissionDenied(String::from_str("无法打开设备. 请以管理员身份运行"))
    } else {
        PurgeError::IoError(e)
    }
}

/// What the operator is told when the device scan fails: for a refused
/// permission, the refusal's own text and advice to run with administrator
/// or root rights; for any other error, its message.
pub fn scan_failure_message(e: &PurgeError) -> (m: String)
    ensures
        e matches PurgeError::PermissionDenied(t) ==> m@ == t@ + "\n提示: 请使用管理员/root权限运行"@,
        !(e is PermissionDenied) && !(e is IoError) ==> m@ == e.spec_message(),
        e is IoError ==> m@.len() >= e.spec_message().len() && m@.subrange(0, e.spec_message().len() as int)
            == e.spec_message(),
{
    match e {
        PurgeError::PermissionDenied(t) => {
            let mut m = String::from_str(t.as_str());
            push_str(&mut m, "\n提示: 请使用管理员/root权限运行");
            m
        },
        _ => e.message(),
    }
}

/// Only removable devices that are not the system disk are ever opened: of
/// a list kept by `wipe_candidates`, the device that `check_open_target`
/// accepts for a path is removable and not the system disk.
pub proof fn lemma_opened_device_is_a_candidate(
    all: Seq<DeviceView>,
    listed: Seq<DeviceView>,
    path: Seq<char>,
    i: int,
)
    requires
        listed == all.filter(|d: DeviceView| is_wipe_candidate(d)),
        first_index_with_path(listed, path, i),
    ensures
        listed[i].removable,
        !listed[i].is_system,
{
    let pred = |d: DeviceView| is_wipe_candidate(d);
    all.lemma_filter_pred(pred, i);
}

/// The devices offered for wiping are exactly the removable ones that are
/// not the system disk, in their order: whatever their bus (USB, SD card,
/// NVMe, or unknown), every removable device that is not the system disk
/// is kept, and nothing else is.
pub proof fn lemma_candidates_are_removable_non_system(all: Seq<DeviceView>)
    ensures
        all.filter(|d: DeviceView| is_wipe_candidate(d)) == all.filter(
            |d: DeviceView| d.removable && !d.is_system,
        ),
        forall|i: int|
            0 <= i < all.len() && all[i].removable && !all[i].is_system ==> all.filter(
                |d: DeviceView| is_wipe_candidate(d),
            ).contains(#[trigger] all[i]),
{
    let pred = |d: DeviceView| is_wipe_candidate(d);
    let direct = |d: DeviceView| d.removable && !d.is_system;
    assert(pred =~= direct);
    assert forall|i: int| 0 <= i < all.len() && all[i].removable && !all[i].is_system implies all.filter(
        pred,
    ).contains(#[trigger] all[i]) by {
        all.lemma_filter_contains(pred, i);
    }
}

/// What /sys/block tells about a device: it is listed only when its
/// "removable" attribute reads "1" (white space aside); it is then listed as
/// /dev/NAME, removable, with the given system-disk flag, the trimmed model
/// (or "未知设备"), and the trimmed serial number read from `device/serial`,
/// or, only when that is missing, from `device/vpd_pg80`, or else "无序列号".
pub proof fn lemma_sysfs_device_fields(name: Seq<char>, a: SysfsAttributes, is_system: bool)
    ensures
        spec_sysfs_device(name, a, is_system) is Some ==> (a.removable matches Some(v) && trim(v@)
            == "1"@),
        spec_sysfs_device(name, a, is_system) matches Some(d) ==> {
            &&& d.path == "/dev/"@ + name
            &&& d.removable
            &&& d.is_system == is_system
            &&& (a.serial matches Some(v) ==> d.serial == trim(v@))
            &&& (a.serial is None ==> (a.vpd_pg80 matches Some(v) ==> d.serial == trim(v@)))
            &&& (a.serial is None && a.vpd_pg80 is None ==> d.serial == "无序列号"@)
            &&& (a.model matches Some(m) ==> d.model == trim(m@))
            &&& (a.model is None ==> d.model == "未知设备"@)
        },
{
}

} // verus!
