use purgedisk::text::{
    contains_str, decimal_string, div_round_half_even, f64_value_of, lines_of, parse_u64,
    second_word, starts_with_str, str_eq, trim_chars, trim_start_matches,
};

#[test]
fn parse_u64_matches_std() {
    let samples = [
        "0", "42", "007", "18446744073709551615", "18446744073709551616", "", "+5", "-1", " 1",
        "1 ", "12a", "99999999999999999999", "+",
    ];
    for s in samples {
        assert_eq!(parse_u64(s), s.parse::<u64>().ok(), "for {:?}", s);
    }
}

#[test]
fn trimming_matches_std() {
    let samples = ["  a b  ", "\n\t x \r\n", "", "   ", "\u{3000}全角\u{3000}", "\u{a0}x\u{85}", "x"];
    for s in samples {
        assert_eq!(trim_chars(s), s.trim(), "for {:?}", s);
    }
}

#[test]
fn lines_match_std() {
    let samples = ["a\nb", "a\r\nb\n", "", "\n", "a\n\nb", "x\r", "one"];
    for s in samples {
        let ours = lines_of(s);
        let theirs: Vec<String> = s.lines().map(|l| l.to_string()).collect();
        assert_eq!(ours, theirs, "for {:?}", s);
    }
}

#[test]
fn words_and_prefixes() {
    assert_eq!(second_word("/dev/sdb1 /media/usb vfat"), Some("/media/usb".to_string()));
    assert_eq!(second_word("  one   two "), Some("two".to_string()));
    assert_eq!(second_word("one"), None);
    assert_eq!(trim_start_matches("/dev//dev/x", "/dev/"), "x");
    assert_eq!(trim_start_matches("abc", ""), "abc");
    assert!(starts_with_str("nvme0", "nvme"));
    assert!(!starts_with_str("nv", "nvme"));
    assert!(contains_str("a failed b", "failed"));
    assert!(contains_str("x", ""));
    assert!(!contains_str("fail", "failed"));
    assert!(str_eq("设备", "设备"));
    assert!(!str_eq("a", "ab"));
}

#[test]
fn numbers() {
    assert_eq!(decimal_string(0), "0");
    assert_eq!(decimal_string(u64::MAX), u64::MAX.to_string());
    assert_eq!(div_round_half_even(5, 2), 2);
    assert_eq!(div_round_half_even(7, 2), 4);
    assert_eq!(div_round_half_even(8, 3), 3);
    assert_eq!(div_round_half_even(0, 3), 0);
    for b in [0u64, 1, (1 << 53) + 1, (1 << 54) + 3, u64::MAX, 123_456_789_012_345_678] {
        assert_eq!(f64_value_of(b), (b as f64) as u128, "for {}", b);
    }
}
