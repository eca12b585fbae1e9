use purgedisk::format::{format_bytes, format_duration_secs, size_display_of, truncate};

fn float_format_bytes(bytes: u64) -> String {
    let b = bytes as f64;
    if b >= 1_099_511_627_776.0 {
        format!("{:.2} TB", b / 1_099_511_627_776.0)
    } else if b >= 1_073_741_824.0 {
        format!("{:.2} GB", b / 1_073_741_824.0)
    } else if b >= 1_048_576.0 {
        format!("{:.1} MB", b / 1_048_576.0)
    } else if b >= 1024.0 {
        format!("{:.1} KB", b / 1024.0)
    } else {
        format!("{:.0} B", b)
    }
}

fn float_size_display(bytes: u64) -> String {
    let bytes = bytes as f64;
    if bytes >= 1_099_511_627_776.0 {
        format!("{:.2} TB", bytes / 1_099_511_627_776.0)
    } else if bytes >= 1_073_741_824.0 {
        format!("{:.2} GB", bytes / 1_073_741_824.0)
    } else if bytes >= 1_048_576.0 {
        format!("{:.2} MB", bytes / 1_048_576.0)
    } else {
        format!("{:.0} B", bytes)
    }
}

fn samples() -> Vec<u64> {
    let mut v = vec![
        0, 1, 512, 1023, 1024, 1025, 1536, 1075, 1126, 1177, 10 * 1024 + 51,
        1_048_575, 1_048_576, 1_572_864, 15_938_355_200, 16_008_609_792, 31_914_983_424,
        1_099_511_627_776, 1_649_267_441_664, 2_000_398_934_016,
        u64::MAX, u64::MAX - 1, (1u64 << 53) + 1, (1u64 << 53) - 1, (1u64 << 60) + 12345,
    ];
    // Values exactly half-way between two printed decimals.
    for unit in [1024u64, 1_048_576, 1_073_741_824, 1_099_511_627_776] {
        for k in 0..40u64 {
            v.push(unit + unit / 20 * k + unit / 40);
            v.push(unit * 3 + unit / 200 * k + unit / 400);
            v.push(unit * 7 + unit * k / 8);
        }
    }
    let mut x: u64 = 0x9E37_79B9_7F4A_7C15;
    for _ in 0..2000 {
        x ^= x << 13;
        x ^= x >> 7;
        x ^= x << 17;
        v.push(x >> (x % 60));
    }
    v
}

#[test]
fn format_bytes_matches_float_formatting() {
    for b in samples() {
        assert_eq!(format_bytes(b), float_format_bytes(b), "bytes = {}", b);
    }
}

#[test]
fn size_display_matches_float_formatting() {
    for b in samples() {
        assert_eq!(size_display_of(b), float_size_display(b), "bytes = {}", b);
    }
}

#[test]
fn format_bytes_exact_values() {
    assert_eq!(format_bytes(0), "0 B");
    assert_eq!(format_bytes(1023), "1023 B");
    assert_eq!(format_bytes(1024), "1.0 KB");
    assert_eq!(format_bytes(1_572_864), "1.5 MB");
    assert_eq!(format_bytes(1_073_741_824), "1.00 GB");
    assert_eq!(format_bytes(1_099_511_627_776), "1.00 TB");
}

#[test]
fn format_duration_examples() {
    assert_eq!(format_duration_secs(0), "0s");
    assert_eq!(format_duration_secs(59), "59s");
    assert_eq!(format_duration_secs(60), "1m0s");
    assert_eq!(format_duration_secs(3599), "59m59s");
    assert_eq!(format_duration_secs(3600), "1h0m0s");
    assert_eq!(format_duration_secs(3725), "1h2m5s");
}

#[test]
fn truncate_examples() {
    assert_eq!(truncate("abc", 5), "abc");
    assert_eq!(truncate("abcde", 5), "abcde");
    assert_eq!(truncate("abcdefgh", 5), "abcd…");
    assert_eq!(truncate("操作人", 9), "操作人");
    assert_eq!(truncate("操作人名字", 7), "操作…");
}

#[test]
fn units_change_exactly_at_the_powers_of_two() {
    assert_eq!(format_bytes(1_048_575), "1024.0 KB");
    assert_eq!(format_bytes(1_048_576), "1.0 MB");
    assert_eq!(format_bytes(1_073_741_823), "1024.0 MB");
    assert_eq!(format_bytes(1_073_741_824), "1.00 GB");
    assert_eq!(format_bytes(1_099_511_627_775), "1024.00 GB");
    assert_eq!(format_bytes(1_099_511_627_776), "1.00 TB");
}
