use purgedisk::audit::entry::{LogEntry, LogStatus};
use purgedisk::audit::json::{entry_to_json, hex_digit_of, push_json_string};
use purgedisk::audit::order::sort_newest_first;
use purgedisk::audit::sign::{can_sign, generate_machine_key, hex_encode, sign_entry};
use purgedisk::audit::trail::{
    end_status, hostname_or_unknown, incomplete_entries, is_log_file, log_file_name_for,
    matches_serial, operator_or_unknown, AuditLog,
};
use purgedisk::wipe::engine::WipePass;

fn entry(ts: &str, serial: &str, status: LogStatus) -> LogEntry {
    LogEntry {
        timestamp: ts.to_string(),
        operator: "alice".to_string(),
        hostname: "lab-01".to_string(),
        device_serial: serial.to_string(),
        device_path: "/dev/sdb".to_string(),
        device_size_bytes: 16_008_609_792,
        algorithm: "DoD 5220.22-M (3 轮)".to_string(),
        pass_number: 0,
        pass_pattern: String::new(),
        status,
        error_detail: None,
        hmac_signature: String::new(),
    }
}

fn hmac_hex(key: &[u8], msg: &[u8]) -> String {
    let k = ring::hmac::Key::new(ring::hmac::HMAC_SHA256, key);
    let tag = ring::hmac::sign(&k, msg);
    tag.as_ref().iter().map(|b| format!("{:02x}", b)).collect()
}

#[test]
fn status_names() {
    assert_eq!(LogStatus::Started.as_str(), "started");
    assert_eq!(LogStatus::PassComplete.as_str(), "pass_complete");
    assert_eq!(LogStatus::Completed.as_str(), "completed");
    assert_eq!(LogStatus::Interrupted.as_str(), "interrupted");
    assert_eq!(LogStatus::Error.as_str(), "error");
    assert_eq!(LogStatus::Cancelled.as_str(), "cancelled");
    assert_eq!(LogStatus::PassComplete.variant_name(), "PassComplete");
}

#[test]
fn hex_encoding_is_lower_case_two_digits_per_byte() {
    assert_eq!(hex_encode(&[0x00, 0x0f, 0xab, 0xff]), "000fabff");
    assert_eq!(hex_encode(&[]), "");
    assert_eq!(hex_digit_of(10), 'a');
    let all: Vec<u8> = (0..=255).collect();
    let expected: String = all.iter().map(|b| format!("{:02x}", b)).collect();
    assert_eq!(hex_encode(&all), expected);
}

#[test]
fn json_strings_match_serde_json() {
    let samples = [
        "",
        "plain",
        "quote \" and backslash \\",
        "line\nbreak\rreturn\ttab",
        "\u{0008}\u{000c}\u{0000}\u{001f}\u{007f}",
        "中文 设备 ✓ \u{2028}\u{2029}",
        "emoji 😀",
    ];
    for s in samples {
        let mut out = String::new();
        push_json_string(&mut out, s);
        assert_eq!(out, serde_json::to_string(s).unwrap(), "for {:?}", s);
    }
}

#[test]
fn entry_json_has_the_field_order_of_the_struct() {
    let mut e = entry("2024-05-01T10:00:00+08:00", "SN\"1", LogStatus::Cancelled);
    e.error_detail = Some("用户取消".to_string());
    let json = entry_to_json(&e);
    let expected = [
        "{\"timestamp\":\"2024-05-01T10:00:00+08:00\",\"operator\":\"alice\",\"hostname\":\"lab-01\",",
        "\"device_serial\":\"SN\\\"1\",\"device_path\":\"/dev/sdb\",\"device_size_bytes\":16008609792,",
        "\"algorithm\":\"DoD 5220.22-M (3 轮)\",\"pass_number\":0,\"pass_pattern\":\"\",",
        "\"status\":\"Cancelled\",\"error_detail\":\"用户取消\",\"hmac_signature\":\"\"}",
    ]
    .join("");
    assert_eq!(json, expected);
    let v: serde_json::Value = serde_json::from_str(&json).unwrap();
    assert_eq!(v["device_serial"], "SN\"1");
    assert_eq!(v["device_size_bytes"], 16_008_609_792u64);
    assert_eq!(v["status"], "Cancelled");
    let none = entry_to_json(&entry("t", "s", LogStatus::Started));
    assert!(none.contains("\"error_detail\":null"));
}

#[test]
fn json_line_never_breaks_a_line() {
    let mut e = entry("t\n", "a\r\nb", LogStatus::Error);
    e.error_detail = Some("x\ny".to_string());
    let json = entry_to_json(&e);
    assert!(!json.contains('\n'));
    assert!(!json.contains('\r'));
}

#[test]
fn signing_uses_hmac_of_the_unsigned_json() {
    let key = b"0123456789abcdef0123456789abcdef";
    let mut e = entry("2024-05-01T10:00:00+08:00", "SN1", LogStatus::Started);
    e.hmac_signature = "stale".to_string();
    assert!(can_sign(key, &e));
    let signed = sign_entry(key, e.clone());
    let mut unsigned = e.clone();
    unsigned.hmac_signature = String::new();
    let expected = hmac_hex(key, entry_to_json(&unsigned).as_bytes());
    assert_eq!(signed.hmac_signature, expected);
    assert_eq!(signed.hmac_signature.len(), 64);
    // Signing again gives the same entry.
    let again = sign_entry(key, signed.clone());
    assert_eq!(again.hmac_signature, signed.hmac_signature);
    // Another key gives another signature.
    let other = sign_entry(b"another key", e);
    assert_ne!(other.hmac_signature, signed.hmac_signature);
}

#[test]
fn machine_key_is_derived_from_host_and_operator() {
    let k = generate_machine_key("lab-01", "alice");
    let seed = ring::digest::digest(&ring::digest::SHA256, b"lab-01alicepurgedisk-salt-2024");
    let kk = ring::hmac::Key::new(ring::hmac::HMAC_SHA256, seed.as_ref());
    let expected = ring::hmac::sign(&kk, b"purgedisk-keygen");
    assert_eq!(k, expected.as_ref().to_vec());
    assert_eq!(k.len(), 32);
    assert_eq!(generate_machine_key("lab-01", "alice"), k);
    assert_ne!(generate_machine_key("lab-02", "alice"), k);
}

#[test]
fn audit_log_entries_and_writes() {
    let key = vec![7u8; 32];
    let log = AuditLog::new("/var/log/purgedisk", key.clone(), "alice");
    assert_eq!(log.log_dir(), "/var/log/purgedisk");
    let start = log.create_start_entry("/dev/sdb", "SN1", 1000);
    assert_eq!(start.operator, "alice");
    assert_eq!(start.device_path, "/dev/sdb");
    assert_eq!(start.device_serial, "SN1");
    assert_eq!(start.device_size_bytes, 1000);
    assert_eq!(start.algorithm, "DoD 5220.22-M (3 轮)");
    assert_eq!(start.pass_number, 0);
    assert_eq!(start.pass_pattern, "");
    assert_eq!(start.status, LogStatus::Started);
    assert!(start.error_detail.is_none());
    assert!(chrono::DateTime::parse_from_rfc3339(&start.timestamp).is_ok());
    assert!(!start.hostname.is_empty());

    let pass = log.create_pass_entry("/dev/sdb", "SN1", 1000, WipePass::One);
    assert_eq!(pass.pass_number, 2);
    assert_eq!(pass.pass_pattern, "0xFF");
    assert_eq!(pass.status, LogStatus::PassComplete);
    let rnd = log.create_pass_entry("/dev/sdb", "SN1", 1000, WipePass::Random);
    assert_eq!(rnd.pass_pattern, "RANDOM");
    assert_eq!(rnd.pass_number, 3);

    let end = log.create_end_entry("/dev/sdb", "SN1", 1000, LogStatus::Error, Some("写入失败: x".to_string()));
    assert_eq!(end.pass_number, 3);
    assert_eq!(end.status, LogStatus::Error);
    assert_eq!(end.error_detail, Some("写入失败: x".to_string()));

    assert!(log.can_write(&end));
    let w = log.write_entry(end.clone());
    assert!(w.file_name.starts_with("audit-"));
    assert!(w.file_name.ends_with(".jsonl"));
    assert_eq!(w.file_name.len(), "audit-2024-05-01.jsonl".len());
    let signed = sign_entry(&key, end);
    assert_eq!(w.line, entry_to_json(&signed));
    assert!(!w.line.contains('\n'));
}

#[test]
fn log_file_names() {
    assert_eq!(log_file_name_for("2024-05-01"), "audit-2024-05-01.jsonl");
    assert!(is_log_file("audit-2024-05-01.jsonl"));
    assert!(is_log_file("x.jsonl"));
    assert!(!is_log_file(".jsonl"));
    assert!(!is_log_file("audit.json"));
    assert!(!is_log_file("audit.jsonl.bak"));
}

#[test]
fn incomplete_wipes_are_those_still_started() {
    let last = vec![
        entry("1", "A", LogStatus::Completed),
        entry("2", "B", LogStatus::Started),
        entry("3", "C", LogStatus::Error),
        entry("4", "D", LogStatus::Started),
        entry("5", "E", LogStatus::PassComplete),
        entry("6", "F", LogStatus::Cancelled),
        entry("7", "G", LogStatus::Interrupted),
    ];
    let r = incomplete_entries(&last);
    let serials: Vec<&str> = r.iter().map(|e| e.device_serial.as_str()).collect();
    // A wipe cut off after a pass ends with that pass's entry.
    assert_eq!(serials, vec!["B", "D", "E"]);
    assert!(incomplete_entries(&vec![]).is_empty());
}

#[test]
fn serial_filter() {
    let e = entry("1", "SN1", LogStatus::Completed);
    assert!(matches_serial(&e, None));
    assert!(matches_serial(&e, Some("SN1")));
    assert!(!matches_serial(&e, Some("SN2")));
}

#[test]
fn end_statuses() {
    assert_eq!(end_status(true, true), LogStatus::Completed);
    assert_eq!(end_status(false, true), LogStatus::Cancelled);
    assert_eq!(end_status(false, false), LogStatus::Error);
}

#[test]
fn fallbacks_for_unknown_host_and_user() {
    assert_eq!(hostname_or_unknown(None), "未知主机");
    assert_eq!(hostname_or_unknown(Some("h".to_string())), "h");
    assert_eq!(operator_or_unknown(None), "未知用户");
    assert_eq!(operator_or_unknown(Some("bob".to_string())), "bob");
}

#[test]
fn newest_entries_come_first_and_ties_keep_their_order() {
    let entries = vec![
        entry("2024-05-01T10:00:00+08:00", "a", LogStatus::Started),
        entry("2024-05-03T10:00:00+08:00", "b", LogStatus::Started),
        entry("2024-05-02T10:00:00+08:00", "c", LogStatus::Started),
        entry("2024-05-03T10:00:00+08:00", "d", LogStatus::Started),
        entry("2024-05-03T10:00:00", "e", LogStatus::Started),
    ];
    let sorted = sort_newest_first(&entries);
    let serials: Vec<&str> = sorted.iter().map(|e| e.device_serial.as_str()).collect();
    // std's stable sort by timestamp, descending, gives the same order.
    let mut expected = entries.clone();
    expected.sort_by(|a, b| b.timestamp.cmp(&a.timestamp));
    let expected: Vec<&str> = expected.iter().map(|e| e.device_serial.as_str()).collect();
    assert_eq!(serials, expected);
    assert_eq!(serials, vec!["b", "d", "e", "c", "a"]);
}

#[test]
fn different_entries_give_different_lines() {
    let base = entry("2024-05-01T10:00:00+08:00", "SN1", LogStatus::Started);
    let mut variants = Vec::new();
    let mut v = base.clone();
    v.device_serial = "SN\\1".to_string();
    variants.push(v);
    let mut v = base.clone();
    v.device_size_bytes += 1;
    variants.push(v);
    let mut v = base.clone();
    v.status = LogStatus::Completed;
    variants.push(v);
    let mut v = base.clone();
    v.error_detail = Some("null".to_string());
    variants.push(v);
    let mut v = base.clone();
    v.operator = "alice\",\"hostname\":\"x".to_string();
    variants.push(v);
    let line = entry_to_json(&base);
    for v in &variants {
        assert_ne!(entry_to_json(v), line);
    }
}

#[test]
fn altering_a_signed_entry_breaks_its_signature() {
    let key = b"machine key";
    let signed = sign_entry(key, entry("2024-05-01T10:00:00+08:00", "SN1", LogStatus::Completed));
    let mut forged = signed.clone();
    forged.status = LogStatus::Error;
    // Re-signing the forged entry gives another signature than the one it carries.
    assert_ne!(sign_entry(key, forged.clone()).hmac_signature, forged.hmac_signature);
    assert_eq!(sign_entry(key, signed.clone()).hmac_signature, signed.hmac_signature);
}

#[test]
fn entries_at_a_given_time_and_host() {
    let log = AuditLog::new("/logs", vec![1u8; 32], "bob");
    let t = "2024-05-01T10:00:00+08:00".to_string();
    let s = log.start_entry_at(t.clone(), "lab-07".to_string(), "/dev/sdc", "S9", 42);
    assert_eq!(s.timestamp, t);
    assert_eq!(s.hostname, "lab-07");
    assert_eq!(s.operator, "bob");
    assert_eq!(s.status, LogStatus::Started);
    assert_eq!(s.pass_number, 0);
    let p = log.pass_entry_at(t.clone(), "".to_string(), "/dev/sdc", "S9", 42, WipePass::Zero);
    assert_eq!(p.hostname, "");
    assert_eq!(p.pass_number, 1);
    assert_eq!(p.pass_pattern, "0x00");
    assert_eq!(p.status, LogStatus::PassComplete);
    let e = log.end_entry_at(t, "h".to_string(), "/dev/sdc", "S9", 42, LogStatus::Completed, None);
    assert_eq!(e.pass_number, 3);
    assert_eq!(e.status, LogStatus::Completed);
    assert_eq!(e.hostname, "h");
}

#[test]
fn signatures_are_sixty_four_lower_case_hex_digits() {
    let signed = sign_entry(b"k", entry("t", "s", LogStatus::Started));
    assert_eq!(signed.hmac_signature.len(), 64);
    assert!(signed.hmac_signature.chars().all(|c| c.is_ascii_digit() || ('a'..='f').contains(&c)));
    let bytes: Vec<u8> = (0..32).map(|i| u8::from_str_radix(&signed.hmac_signature[2 * i..2 * i + 2], 16).unwrap()).collect();
    assert_eq!(hex_encode(&bytes), signed.hmac_signature);
}

#[test]
fn a_file_that_ends_with_an_end_entry_adds_nothing() {
    let with_end = vec![
        entry("1", "A", LogStatus::Started),
        entry("2", "B", LogStatus::Completed),
        entry("3", "C", LogStatus::PassComplete),
    ];
    let without = vec![entry("1", "A", LogStatus::Started), entry("3", "C", LogStatus::PassComplete)];
    let a: Vec<String> = incomplete_entries(&with_end).iter().map(|e| e.device_serial.clone()).collect();
    let b: Vec<String> = incomplete_entries(&without).iter().map(|e| e.device_serial.clone()).collect();
    assert_eq!(a, b);
    assert!(!a.contains(&"B".to_string()));
}
