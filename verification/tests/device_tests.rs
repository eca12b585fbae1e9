use purgedisk::audit::entry::LogStatus;
use purgedisk::device::diskutil::{
    extract_string, extract_string_readable, extract_u64, extract_whole_disk_ids_from_plist,
    extract_whole_disk_ids_from_text, is_partition_id, parse_single_disk, parse_single_disk_readable,
    plist_readable, xml_contains,
};
use purgedisk::device::platform::{
    check_is_system_disk, check_open_target, disk_id_from_path, find_device, first_partition,
    is_block_candidate, linux_reformat_path, mount_points, open_failure_message,
    parse_sysfs_device, reformat_failure, scan_failure_message, status_for_failure, sysfs_readable,
    unix_open_error, unmount_failure, wipe_candidates, windows_open_error, SysfsAttributes,
};
use purgedisk::device::windows::{
    check_windows_system_disk, descriptor_readable, extract_string_from_buf,
    extract_string_from_buf_single, physical_drive_path, windows_device,
};
use purgedisk::device::Device;
use purgedisk::error::PurgeError;

fn device(path: &str, serial: &str, removable: bool, is_system: bool) -> Device {
    Device {
        path: path.to_string(),
        volume_paths: vec![],
        model: "SanDisk Ultra".to_string(),
        serial: serial.to_string(),
        size_bytes: 16_008_609_792,
        removable,
        bus_type: "USB".to_string(),
        is_system,
    }
}

#[test]
fn device_names_and_sizes() {
    let d = device("/dev/sdb", "4C53000", true, false);
    assert_eq!(d.size_display(), "14.91 GB");
    assert_eq!(d.short_name(), "SanDisk Ultra [4C53000] (14.91 GB)");
    let mut unnamed = d.clone();
    unnamed.model = String::new();
    assert_eq!(unnamed.short_name(), "未知设备 [4C53000] (14.91 GB)");
    assert_eq!(
        d.display_text(),
        "设备: SanDisk Ultra\n  路径: /dev/sdb\n  序列号: 4C53000\n  容量: 14.91 GB\n  总线: USB\n  可移动: 是"
    );
    let copy = d.copy();
    assert_eq!(copy.serial, d.serial);
}

#[test]
fn only_removable_non_system_devices_are_candidates() {
    let list = vec![
        device("/dev/sda", "A", false, false),
        device("/dev/sdb", "B", true, false),
        device("/dev/sdc", "C", true, true),
        device("/dev/sdd", "D", true, false),
    ];
    let c = wipe_candidates(&list);
    let paths: Vec<&str> = c.iter().map(|d| d.path.as_str()).collect();
    assert_eq!(paths, vec!["/dev/sdb", "/dev/sdd"]);
}

#[test]
fn opening_a_target_checks_the_list() {
    let list = vec![device("/dev/sdb", "B", true, false), device("/dev/sdc", "C", true, true)];
    assert_eq!(find_device(&list, "/dev/sdc"), Some(1));
    assert_eq!(find_device(&list, "/dev/sdz"), None);
    assert!(check_open_target(&list, "/dev/sdb").is_ok());
    match check_open_target(&list, "/dev/sdz") {
        Err(PurgeError::DeviceNotFound(m)) => assert_eq!(m, "设备 /dev/sdz 未在可移动设备列表中找到"),
        other => panic!("unexpected {:?}", other),
    }
    match check_open_target(&list, "/dev/sdc") {
        Err(PurgeError::SystemDiskForbidden(m)) => assert_eq!(m, "/dev/sdc"),
        other => panic!("unexpected {:?}", other),
    }
}

#[test]
fn error_messages() {
    assert_eq!(PurgeError::DeviceNotFound("x".into()).message(), "设备不存在: x");
    assert_eq!(PurgeError::PermissionDenied("x".into()).message(), "权限不足: x. 请使用管理员/root权限运行");
    assert_eq!(
        PurgeError::NotRemovable { path: "/dev/sda".into(), reason: "fixed".into() }.message(),
        "目标设备不是可移动存储: /dev/sda (fixed)"
    );
    assert_eq!(PurgeError::SystemDiskForbidden("/dev/sda".into()).message(), "目标设备是系统盘，禁止操作: /dev/sda");
    let io = PurgeError::IoError(std::io::Error::new(std::io::ErrorKind::Other, "boom"));
    assert_eq!(io.message(), "设备 I/O 错误: boom");
    assert_eq!(PurgeError::DeviceInfoError("x".into()).message(), "设备信息获取失败: x");
    assert_eq!(
        PurgeError::WipeInterrupted { pass: 2, written: 10, total: 30 }.message(),
        "擦写过程中断: 轮次 2, 已写 10/30 字节"
    );
    assert_eq!(PurgeError::LogError("x".into()).message(), "日志错误: x");
    assert_eq!(PurgeError::CryptoError("x".into()).message(), "加密/签名错误: x");
    assert_eq!(PurgeError::UserCancelled.message(), "用户取消操作");
    assert_eq!(PurgeError::Internal("x".into()).message(), "内部错误: x");
}

#[test]
fn failure_texts_for_the_operator() {
    let denied = PurgeError::PermissionDenied("no".into());
    assert_eq!(open_failure_message(&denied), "权限不足: no. 请使用管理员/root权限运行\n提示: 请使用 sudo 运行此程序");
    assert_eq!(open_failure_message(&PurgeError::UserCancelled), "打开设备失败: 用户取消操作");
    assert_eq!(scan_failure_message(&denied), "no\n提示: 请使用管理员/root权限运行");
    assert_eq!(scan_failure_message(&PurgeError::DeviceInfoError("x".into())), "设备信息获取失败: x");
    let e = std::io::Error::new(std::io::ErrorKind::PermissionDenied, "denied");
    match unix_open_error("/dev/sdb", true, e) {
        PurgeError::PermissionDenied(m) => assert_eq!(m, "无法打开设备 /dev/sdb. 请使用 sudo 运行"),
        other => panic!("unexpected {:?}", other),
    }
    let e = std::io::Error::new(std::io::ErrorKind::NotFound, "gone");
    assert!(matches!(unix_open_error("/dev/sdb", false, e), PurgeError::IoError(_)));
    let e = std::io::Error::new(std::io::ErrorKind::PermissionDenied, "denied");
    match windows_open_error(true, e) {
        PurgeError::PermissionDenied(m) => assert_eq!(m, "无法打开设备. 请以管理员身份运行"),
        other => panic!("unexpected {:?}", other),
    }
}

#[test]
fn cancelled_or_interrupted() {
    assert_eq!(status_for_failure("用户取消"), LogStatus::Cancelled);
    assert_eq!(status_for_failure("用户取消操作"), LogStatus::Cancelled);
    assert_eq!(status_for_failure("写入失败: disk full"), LogStatus::Interrupted);
}

fn attrs(removable: &str, size: &str) -> SysfsAttributes {
    SysfsAttributes {
        removable: Some(removable.to_string()),
        size: Some(size.to_string()),
        model: Some("Ultra Fit       \n".to_string()),
        serial: None,
        vpd_pg80: Some(" 4C530001\n".to_string()),
        vendor: Some("SanDisk \n".to_string()),
    }
}

#[test]
fn sysfs_devices() {
    assert!(is_block_candidate("sdb"));
    assert!(is_block_candidate("nvme0n1"));
    assert!(!is_block_candidate("loop0"));
    let d = parse_sysfs_device("sdb", &attrs("1\n", "31266816\n"), false).unwrap();
    assert_eq!(d.path, "/dev/sdb");
    assert_eq!(d.model, "Ultra Fit");
    assert_eq!(d.serial, "4C530001");
    assert_eq!(d.size_bytes, 31266816 * 512);
    assert!(d.removable);
    assert_eq!(d.bus_type, "USB");
    assert!(!d.is_system);
    assert!(d.volume_paths.is_empty());
    // Not removable, too small, or an unreadable size: left out.
    assert!(parse_sysfs_device("sdb", &attrs("0\n", "31266816\n"), false).is_none());
    assert!(parse_sysfs_device("sdb", &attrs("1\n", "1000\n"), false).is_none());
    assert!(parse_sysfs_device("sdb", &attrs("1\n", "lots\n"), false).is_none());
    // An NVMe disk whose vendor does not say USB.
    let n = parse_sysfs_device("nvme0n1", &attrs("1", "31266816"), true).unwrap();
    assert_eq!(n.bus_type, "未知");
    assert!(n.is_system);
    let bare = SysfsAttributes {
        removable: Some("1".into()),
        size: Some("200000".into()),
        model: None,
        serial: None,
        vpd_pg80: None,
        vendor: Some("Generic USB".into()),
    };
    let b = parse_sysfs_device("nvme1n1", &bare, false).unwrap();
    assert_eq!(b.model, "未知设备");
    assert_eq!(b.serial, "无序列号");
    assert_eq!(b.bus_type, "USB");
}

#[test]
fn system_disk_and_mount_points() {
    let mounts = "/dev/sda2 / ext4 rw 0 0\n/dev/sdb1 /media/usb vfat rw 0 0\n/dev/sdb2 /media/usb2 exfat rw 0 0\nproc /proc proc rw 0 0\n";
    assert!(check_is_system_disk("sda", Some(mounts)));
    assert!(!check_is_system_disk("sdb", Some(mounts)));
    assert!(!check_is_system_disk("sda", None));
    assert_eq!(mount_points(mounts, "sdb"), vec!["/media/usb".to_string(), "/media/usb2".to_string()]);
    assert!(mount_points(mounts, "sdc").is_empty());
}

#[test]
fn paths_for_the_platform_tools() {
    assert_eq!(disk_id_from_path("/dev/rdisk4"), "disk4");
    assert_eq!(disk_id_from_path("/dev/disk4"), "disk4");
    assert_eq!(linux_reformat_path("/dev/rdisk4"), "/dev/disk4");
    assert_eq!(linux_reformat_path("/dev/sdb"), "/dev/sdb");
    assert_eq!(first_partition("/dev/sdb"), "/dev/sdb1");
}

#[test]
fn outcomes_of_the_disk_tools() {
    assert!(unmount_failure(true, "", "").is_none());
    assert!(unmount_failure(false, "Unmount of disk4 failed", "").is_none());
    match unmount_failure(false, "out ", "err") {
        Some(PurgeError::DeviceInfoError(m)) => assert_eq!(m, "卸载设备失败: out err"),
        other => panic!("unexpected {:?}", other),
    }
    assert!(reformat_failure(true, "x", "y").is_none());
    match reformat_failure(false, "out ", "err") {
        Some(PurgeError::DeviceInfoError(m)) => assert_eq!(m, "重新格式化失败: out err"),
        other => panic!("unexpected {:?}", other),
    }
}

const DISK_INFO: &str = r#"<?xml version="1.0" encoding="UTF-8"?>
<plist version="1.0">
<dict>
	<key>BusProtocol</key>
	<string>USB</string>
	<key>Ejectable</key>
	<true/>
	<key>Internal</key>
	<false/>
	<key>IORegistryEntryName</key>
	<string>SanDisk Ultra Media</string>
	<key>MediaName</key>
	<string>  SanDisk Ultra  </string>
	<key>Protocol</key>
	<string>USB</string>
	<key>Removable</key>
	<false/>
	<key>RemovableMedia</key>
	<true/>
	<key>TotalSize</key>
	<integer>30752636928</integer>
	<key>Virtual</key>
	<false/>
</dict>
</plist>
"#;

#[test]
fn diskutil_property_lists() {
    assert!(xml_contains(DISK_INFO, "Ejectable", "true"));
    assert!(!xml_contains(DISK_INFO, "Internal", "true"));
    assert!(xml_contains(DISK_INFO, "Internal", "false"));
    assert!(xml_contains(DISK_INFO, "Protocol", "USB"));
    assert!(!xml_contains(DISK_INFO, "Protocol", "Disk Image"));
    assert!(!xml_contains(DISK_INFO, "Bootable", "true"));
    // Only the tag right after the key is read.
    let crossing = "<key>Protocol</key><integer>1</integer><key>Name</key><string>Disk Image</string>";
    assert!(!xml_contains(crossing, "Protocol", "Disk Image"));
    assert!(xml_contains("<key>Removable</key>\n  <true/>", "Removable", "true"));
    assert!(xml_contains("<key>P</key> <string>a</string>", "P", "a"));
    assert!(!xml_contains("<key>P</key> <string>ab</string>", "P", "a"));
    assert!(extract_string_readable(DISK_INFO, "MediaName"));
    assert_eq!(extract_string(DISK_INFO, "MediaName"), Some("SanDisk Ultra".to_string()));
    assert_eq!(extract_string(DISK_INFO, "SerialNumber"), None);
    assert_eq!(extract_u64(DISK_INFO, "TotalSize"), Some(30752636928));
    assert!(parse_single_disk_readable(DISK_INFO));
    let d = parse_single_disk("disk4", DISK_INFO).unwrap();
    assert_eq!(d.path, "/dev/rdisk4");
    assert_eq!(d.model, "SanDisk Ultra");
    // No serial number: one is made from the model and the size in GiB.
    assert_eq!(d.serial, "N/S-SanDiskUltra-28GB");
    assert_eq!(d.size_bytes, 30752636928);
    assert!(d.removable);
    assert_eq!(d.bus_type, "USB");
    assert!(!d.is_system);
}

#[test]
fn diskutil_left_out_disks() {
    let image = DISK_INFO.replace("<key>Virtual</key>\n\t<false/>", "<key>Virtual</key>\n\t<true/>");
    assert!(parse_single_disk_readable(&image));
    assert!(parse_single_disk("disk5", &image).is_none());
    let internal = "<key>Internal</key><true/><key>Virtual</key><false/><key>Protocol</key><string>PCI</string>";
    assert!(parse_single_disk_readable(internal));
    assert!(parse_single_disk("disk0", internal).is_none());
    let with_serial = format!(
        "{}<key>SerialNumber</key><string>AA 11</string>",
        DISK_INFO.replace("</dict>", "")
    );
    assert!(parse_single_disk_readable(&with_serial));
    assert_eq!(parse_single_disk("disk4", &with_serial).unwrap().serial, "AA 11");
}

#[test]
fn diskutil_disk_lists() {
    let text = "/dev/disk4 (external, physical):\n   #:  TYPE NAME  SIZE  IDENTIFIER\n   0:  GUID_partition_scheme  *30.8 GB  disk4\n   1:  EFI EFI  209.7 MB  disk4s1\n/dev/disk5 (external, physical):\n/dev/disk4 (external, physical):\n";
    assert_eq!(extract_whole_disk_ids_from_text(text), vec!["disk4".to_string(), "disk5".to_string()]);
    let plist = "<array>\n  <string>disk0</string>\n  <string>disk0s1</string>\n  <string>disk4</string>\n  <string>disk0</string>\n</array>\n";
    assert!(plist_readable(plist));
    assert_eq!(extract_whole_disk_ids_from_plist(plist), vec!["disk0".to_string(), "disk4".to_string()]);
    let plist2 = "<string>disk4</string>\n<string>disk4s1</string>\n<string>disk5</string>\n<string>disk4</string>";
    assert!(plist_readable(plist2));
    assert_eq!(extract_whole_disk_ids_from_plist(plist2), vec!["disk4".to_string(), "disk5".to_string()]);
    let text2 = "/dev/disk4 (external, physical):\n   1: Windows_NTFS U 8.0 GB disk4s1\n/dev/disk4s1 (external):\n/dev/disk5 (external, physical):\n/dev/disk4 (external, physical):";
    assert_eq!(extract_whole_disk_ids_from_text(text2), vec!["disk4".to_string(), "disk5".to_string()]);
    assert!(is_partition_id("disk4s1"));
    assert!(is_partition_id("disk12s3"));
    assert!(!is_partition_id("s12"));
    assert!(!is_partition_id("disks1"));
    assert!(!is_partition_id("disk4s"));
    assert!(!is_partition_id("disk4s1x"));
    assert!(!is_partition_id("disk4"));
}

#[test]
fn windows_descriptors() {
    let mut buf = vec![0u8; 128];
    buf[40..47].copy_from_slice(b"  USB  ");
    buf[60..66].copy_from_slice(b"Flash ");
    buf[80..88].copy_from_slice(b"AA112233");
    assert_eq!(extract_string_from_buf(&buf, 40, 60), "USB Flash");
    assert_eq!(extract_string_from_buf(&buf, 0, 60), "Flash");
    assert_eq!(extract_string_from_buf(&buf, 40, 500), "USB");
    // An empty string at the offset is left out.
    assert_eq!(extract_string_from_buf(&buf, 10, 0), "");
    assert_eq!(extract_string_from_buf_single(&buf, 80), "AA112233");
    assert_eq!(extract_string_from_buf_single(&buf, 0), "无序列号");
    assert_eq!(extract_string_from_buf_single(&buf, 300), "无序列号");
    // No NUL: 32 bytes are taken.
    let long = vec![b'x'; 64];
    assert_eq!(extract_string_from_buf_single(&long, 1), "x".repeat(32));
    // Invalid UTF-8 is replaced as std does.
    let mut bad = vec![0u8; 16];
    bad[1] = 0xff;
    bad[2] = b'A';
    assert_eq!(extract_string_from_buf_single(&bad, 1), "\u{fffd}A");
}

#[test]
fn windows_drives() {
    assert_eq!(physical_drive_path(3), "\\\\.\\PhysicalDrive3");
    assert!(check_windows_system_disk(0));
    assert!(!check_windows_system_disk(1));
    let d = windows_device(2, false, "USB", "Kingston".to_string(), "S1".to_string(), 1000).unwrap();
    assert_eq!(d.path, "\\\\.\\PhysicalDrive2");
    assert_eq!(d.volume_paths, vec!["\\\\.\\PhysicalDrive2".to_string()]);
    assert!(d.removable);
    assert!(!d.is_system);
    assert_eq!(d.bus_type, "USB");
    let sd = windows_device(0, false, "SD", "Card".to_string(), "S2".to_string(), 1000).unwrap();
    assert!(!sd.removable);
    assert!(sd.is_system);
    assert!(windows_device(1, false, "SATA", "Disk".to_string(), "S3".to_string(), 1000).is_none());
    assert!(windows_device(1, true, "SATA", "Disk".to_string(), "S3".to_string(), 1000).unwrap().removable);
}

#[test]
fn readable_inputs() {
    let mut buf = vec![b'x'; 40];
    buf[20] = 0;
    assert!(descriptor_readable(&buf, 0));
    assert!(descriptor_readable(&buf, 100));
    assert!(descriptor_readable(&buf, 5));
    // From 21 on there is no NUL and fewer than 32 bytes are left.
    assert!(!descriptor_readable(&buf, 21));
    assert!(sysfs_readable(&attrs("1", "31266816")));
    assert!(sysfs_readable(&attrs("0", "18446744073709551615")));
    assert!(!sysfs_readable(&attrs("1", "18446744073709551615")));
    assert!(sysfs_readable(&attrs("1", "36028797018963967")));
    assert!(!sysfs_readable(&attrs("1", "36028797018963968")));
}
