use player::fmt::{format_duration, format_file_size, parse_duration_secs, parse_u64_digits, u64_to_string};

#[test]
fn duration_formats_with_hours() {
    assert_eq!(format_duration(3661), "1:01:01");
}

#[test]
fn duration_formats_without_hours() {
    assert_eq!(format_duration(125), "2:05");
}

#[test]
fn duration_edge_values() {
    assert_eq!(format_duration(0), "0:00");
    assert_eq!(format_duration(59), "0:59");
    assert_eq!(format_duration(60), "1:00");
    assert_eq!(format_duration(3600), "1:00:00");
    assert_eq!(format_duration(7325), "2:02:05");
    assert_eq!(format_duration(36000 + 600 + 10), "10:10:10");
}

#[test]
fn file_size_bytes_tier() {
    assert_eq!(format_file_size(512), "512 B");
    assert_eq!(format_file_size(0), "0 B");
    assert_eq!(format_file_size(1023), "1023 B");
}

#[test]
fn file_size_megabyte_example() {
    assert_eq!(format_file_size(1572864), "1.50 MB");
}

#[test]
fn file_size_unit_boundaries() {
    assert_eq!(format_file_size(1024), "1.00 KB");
    assert_eq!(format_file_size(1048575), "1023.99 KB");
    assert_eq!(format_file_size(1048576), "1.00 MB");
    assert_eq!(format_file_size(1073741824), "1.00 GB");
    assert_eq!(format_file_size(1099511627776), "1.00 TB");
    assert_eq!(format_file_size(5_000_000_000_000), "4.54 TB");
}

#[test]
fn renders_decimal() {
    assert_eq!(u64_to_string(0), "0");
    assert_eq!(u64_to_string(7), "7");
    assert_eq!(u64_to_string(10), "10");
    assert_eq!(u64_to_string(90210), "90210");
    assert_eq!(u64_to_string(u64::MAX), "18446744073709551615");
}

#[test]
fn parses_plain_digits() {
    assert_eq!(parse_u64_digits("123"), Some(123));
    assert_eq!(parse_u64_digits("0"), Some(0));
    assert_eq!(parse_u64_digits("18446744073709551615"), Some(u64::MAX));
}

#[test]
fn rejects_bad_digit_strings() {
    assert_eq!(parse_u64_digits(""), None);
    assert_eq!(parse_u64_digits("12a"), None);
    assert_eq!(parse_u64_digits("-3"), None);
    assert_eq!(parse_u64_digits("18446744073709551616"), None);
}

#[test]
fn parses_probe_durations() {
    assert_eq!(parse_duration_secs("3661.042000"), Some(3661));
    assert_eq!(parse_duration_secs("125"), Some(125));
    assert_eq!(parse_duration_secs("12."), Some(12));
    assert_eq!(parse_duration_secs("0.999"), Some(0));
}

#[test]
fn rejects_bad_durations() {
    assert_eq!(parse_duration_secs(""), None);
    assert_eq!(parse_duration_secs("abc"), None);
    assert_eq!(parse_duration_secs("1.2e3"), None);
    assert_eq!(parse_duration_secs(".5"), None);
    assert_eq!(parse_duration_secs("12.3.4"), None);
}
