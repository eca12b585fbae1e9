use purgedisk::audit::entry::{LogEntry, LogStatus};
use purgedisk::error::PurgeError;
use purgedisk::session::{
    home_relative, listed_at, log_entry_listed, serial_matches, short_timestamp, target_not_listed,
};

fn entry(ts: &str, serial: &str) -> LogEntry {
    LogEntry {
        timestamp: ts.to_string(),
        operator: "alice".to_string(),
        hostname: "lab".to_string(),
        device_serial: serial.to_string(),
        device_path: "/dev/sdb".to_string(),
        device_size_bytes: 1,
        algorithm: "DoD 5220.22-M (3 轮)".to_string(),
        pass_number: 0,
        pass_pattern: String::new(),
        status: LogStatus::Started,
        error_detail: None,
        hmac_signature: String::new(),
    }
}

#[test]
fn typed_serial_is_trimmed_before_comparing() {
    assert!(serial_matches("4C530001\n", "4C530001"));
    assert!(serial_matches("  4C530001 \t", "4C530001"));
    assert!(!serial_matches("4c530001", "4C530001"));
    assert!(!serial_matches("", "4C530001"));
    assert!(serial_matches(" ", ""));
}

#[test]
fn home_relative_paths() {
    assert_eq!(home_relative("~/.purgedisk/logs"), Some(".purgedisk/logs".to_string()));
    assert_eq!(home_relative("~\\logs"), Some("logs".to_string()));
    assert_eq!(home_relative("~"), None);
    assert_eq!(home_relative("/var/log"), None);
    assert_eq!(home_relative("~user/logs"), None);
}

#[test]
fn timestamps_are_shown_to_the_second() {
    assert_eq!(short_timestamp("2024-05-01T10:00:00.123456+08:00"), "2024-05-01T10:00:00");
    assert_eq!(short_timestamp("2024-05-01T10:00:00"), "2024-05-01T10:00:00");
    assert_eq!(short_timestamp("short"), "short");
}

#[test]
fn listing_filters_by_age_and_serial() {
    let cutoff = chrono::DateTime::parse_from_rfc3339("2024-05-01T00:00:00+00:00").unwrap();
    let c = (cutoff.timestamp(), cutoff.timestamp_subsec_nanos());
    // Older than the cutoff: left out.
    assert!(!log_entry_listed(&entry("2024-04-30T23:59:59+00:00", "A"), c, None));
    // The same instant written in another offset is not older.
    assert!(log_entry_listed(&entry("2024-05-01T08:00:00+08:00", "A"), c, None));
    // Half a second before the cutoff is older.
    assert!(!log_entry_listed(&entry("2024-04-30T23:59:59.5+00:00", "A"), c, None));
    // Newer, with and without the filter.
    let e = entry("2024-05-02T00:00:00+00:00", "A");
    assert!(log_entry_listed(&e, c, None));
    assert!(log_entry_listed(&e, c, Some("A")));
    assert!(!log_entry_listed(&e, c, Some("B")));
    // A time stamp that cannot be read is kept.
    assert!(log_entry_listed(&entry("yesterday", "A"), c, None));
    assert!(!log_entry_listed(&entry("yesterday", "A"), c, Some("B")));
}

#[test]
fn listing_decision_on_a_parsed_time() {
    let e = entry("ignored", "A");
    assert!(listed_at(None, (100, 0), &e, None));
    assert!(!listed_at(Some((99, 999_999_999)), (100, 0), &e, None));
    assert!(listed_at(Some((100, 0)), (100, 0), &e, None));
    assert!(!listed_at(Some((100, 5)), (100, 6), &e, None));
    assert!(listed_at(Some((101, 0)), (100, 6), &e, Some("A")));
    assert!(!listed_at(Some((101, 0)), (100, 6), &e, Some("a")));
}

#[test]
fn missing_target_names_the_list_command() {
    match target_not_listed("/dev/sdz") {
        PurgeError::DeviceNotFound(m) => {
            assert_eq!(m, "设备 /dev/sdz 不在可移动设备列表中.\n运行 `purgedisk list` 查看可用设备.")
        }
        other => panic!("unexpected {:?}", other),
    }
}
