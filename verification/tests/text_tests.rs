use xtop::detail::{clock_text, or_unknown, s_to_hms};
use xtop::text::{bytes_le, contains_chars, decimal_chars};

fn chars(text: &str) -> Vec<char> {
    text.chars().collect()
}

#[test]
fn run_time_is_split_into_clock_fields() {
    assert_eq!(s_to_hms(0), (0, 0, 0));
    assert_eq!(s_to_hms(59), (0, 0, 59));
    assert_eq!(s_to_hms(60), (0, 1, 0));
    assert_eq!(s_to_hms(3599), (0, 59, 59));
    assert_eq!(s_to_hms(3600), (1, 0, 0));
    assert_eq!(s_to_hms(3661), (1, 1, 1));
    assert_eq!(s_to_hms(86399), (23, 59, 59));
    assert_eq!(s_to_hms(90061), (25, 1, 1));
    assert_eq!(s_to_hms(u64::MAX), (5124095576030431, 0, 15));
}

#[test]
fn clock_fields_add_up_to_the_run_time() {
    for secs in [0u64, 1, 61, 3600, 7325, 123456789, u64::MAX] {
        let (h, m, s) = s_to_hms(secs);
        assert!(m < 60 && s < 60);
        assert_eq!(h * 3600 + m * 60 + s, secs);
    }
}

#[test]
fn run_time_is_written_with_two_digit_minutes_and_seconds() {
    assert_eq!(clock_text(0), "0:00:00");
    assert_eq!(clock_text(9), "0:00:09");
    assert_eq!(clock_text(59), "0:00:59");
    assert_eq!(clock_text(60), "0:01:00");
    assert_eq!(clock_text(3661), "1:01:01");
    assert_eq!(clock_text(86399), "23:59:59");
    assert_eq!(clock_text(360000), "100:00:00");
    assert_eq!(clock_text(u64::MAX), "5124095576030431:00:15");
    for secs in [5u64, 70, 599, 3600, 7325, 123456789] {
        let (h, m, s) = s_to_hms(secs);
        assert_eq!(clock_text(secs), format!("{}:{:02}:{:02}", h, m, s));
    }
}

#[test]
fn missing_values_are_shown_as_unknown() {
    assert_eq!(or_unknown(None), "Unknown");
    assert_eq!(or_unknown(Some("/bin/sh".to_string())), "/bin/sh");
    assert_eq!(or_unknown(Some(String::new())), "");
}

#[test]
fn decimal_chars_writes_every_digit() {
    assert_eq!(decimal_chars(0), chars("0"));
    assert_eq!(decimal_chars(7), chars("7"));
    assert_eq!(decimal_chars(10), chars("10"));
    assert_eq!(decimal_chars(1234567890), chars("1234567890"));
    assert_eq!(decimal_chars(4294967295), chars("4294967295"));
    assert_eq!(decimal_chars(u64::MAX), chars("18446744073709551615"));
    for n in [9u64, 99, 100, 101, 65535, 1000000] {
        assert_eq!(decimal_chars(n), chars(&n.to_string()));
    }
}

#[test]
fn contains_chars_finds_contiguous_parts() {
    assert!(contains_chars(&chars("bash"), &chars("sh")));
    assert!(contains_chars(&chars("bash"), &chars("ba")));
    assert!(contains_chars(&chars("bash"), &chars("bash")));
    assert!(contains_chars(&chars("bash"), &chars("")));
    assert!(contains_chars(&chars(""), &chars("")));
    assert!(!contains_chars(&chars(""), &chars("a")));
    assert!(!contains_chars(&chars("bash"), &chars("bs")));
    assert!(!contains_chars(&chars("bash"), &chars("bashh")));
    assert!(!contains_chars(&chars("bash"), &chars("SH")));
    assert!(contains_chars(&chars("aaab"), &chars("aab")));
    assert!(contains_chars(&chars("na\u{ef}ve"), &chars("\u{ef}v")));
}

#[test]
fn bytes_le_is_dictionary_order() {
    assert!(bytes_le(b"", b""));
    assert!(bytes_le(b"", b"a"));
    assert!(!bytes_le(b"a", b""));
    assert!(bytes_le(b"a", b"a"));
    assert!(bytes_le(b"a", b"b"));
    assert!(!bytes_le(b"b", b"a"));
    assert!(bytes_le(b"ab", b"abc"));
    assert!(!bytes_le(b"abc", b"ab"));
    assert!(bytes_le(b"abc", b"abd"));
    assert!(bytes_le(b"Z", b"a"));
    assert!(bytes_le(&[0x7f], &[0x80]));
    for a in ["", "a", "ab", "b", "ba", "Z"] {
        for b in ["", "a", "ab", "b", "ba", "Z"] {
            assert_eq!(bytes_le(a.as_bytes(), b.as_bytes()), a <= b);
        }
    }
}
