use monitr::format::{bytes, duration, epoch_time_at, signed_bytes, truncate_middle};

#[test]
fn formats_bytes() {
    assert_eq!(bytes(42), "42 B");
    assert_eq!(bytes(1_500), "1.50 KB");
    assert_eq!(bytes(12_500_000), "12.5 MB");
}

#[test]
fn formats_duration_compactly() {
    assert_eq!(duration(59), "00:59");
    assert_eq!(duration(3_661), "01:01:01");
    assert_eq!(duration(90_000), "1d 01h");
}

#[test]
fn truncates_middle() {
    assert_eq!(truncate_middle("abcdef", 6), "abcdef");
    assert_eq!(truncate_middle("abcdefghij", 7), "abc.hij");
}

#[test]
fn formats_signed_bytes() {
    assert_eq!(signed_bytes(1_500), "+1.50 KB");
    assert_eq!(signed_bytes(-1_500), "-1.50 KB");
    assert_eq!(signed_bytes(0), "0 B");
}

#[test]
fn formats_bytes_across_units() {
    assert_eq!(bytes(0), "0 B");
    assert_eq!(bytes(999), "999 B");
    assert_eq!(bytes(1_000), "1.00 KB");
    assert_eq!(bytes(123_456_789), "123 MB");
    assert_eq!(bytes(5_000_000_000_000), "5.00 TB");
    assert_eq!(bytes(u64::MAX), "18447 PB");
}

#[test]
fn formats_short_and_long_durations() {
    assert_eq!(duration(0), "00:00");
    assert_eq!(duration(86_399), "23:59:59");
    assert_eq!(duration(86_400), "1d 00h");
}

#[test]
fn truncates_to_tiny_widths() {
    assert_eq!(truncate_middle("abcdef", 3), "...");
    assert_eq!(truncate_middle("abcdef", 0), "");
    assert_eq!(truncate_middle("abcdefgh", 4), "a.gh");
    assert_eq!(truncate_middle("", 4), "");
}

#[test]
fn epoch_time_relative_to_now() {
    assert_eq!(epoch_time_at(5, None), "-");
    assert_eq!(epoch_time_at(0, Some(100)), "01:40 ago");
    assert_eq!(epoch_time_at(40, Some(100)), "01:00 ago");
    assert_eq!(epoch_time_at(100, Some(100)), "00:00 ago");
    assert_eq!(epoch_time_at(500, Some(100)), "future");
}

#[test]
fn bytes_round_like_binary64_division() {
    assert_eq!(bytes(1_005), "1.00 KB");
    assert_eq!(bytes(1_015), "1.01 KB");
    assert_eq!(bytes(1_125), "1.12 KB");
    assert_eq!(bytes(1_135), "1.14 KB");
    assert_eq!(bytes(9_995), "9.99 KB");
    assert_eq!(bytes(1_015_000), "1.01 MB");
    assert_eq!(bytes(1_015_000_000), "1.01 GB");
}

#[test]
fn bytes_at_precision_and_unit_edges() {
    assert_eq!(bytes(99_950), "100.0 KB");
    assert_eq!(bytes(99_995), "100.0 KB");
    assert_eq!(bytes(999_499), "999 KB");
    assert_eq!(bytes(999_500), "1000 KB");
    assert_eq!(bytes(999_999), "1000 KB");
    assert_eq!(bytes(999_999_999_999_999), "1000 TB");
    assert_eq!(bytes(1_000_000_000_000_000_000), "1000 PB");
    assert_eq!(bytes(9_007_199_254_740_993), "9.01 PB");
    assert_eq!(bytes(1_234_567_890_123_456_789), "1235 PB");
}
