use virtualcam::clock::ticks_to_nanoseconds;
use virtualcam::text::{
    append_decimal, append_hex, equals_ignoring_ascii_case, join, parse_u32, prefix_end,
    str_contains, str_equal,
};

#[test]
fn numbers_are_written_in_decimal_and_hexadecimal() {
    let mut text = String::from("n=");
    append_decimal(&mut text, 0);
    append_decimal(&mut text, 1920);
    assert_eq!(text, "n=01920");
    let mut hex = String::new();
    append_hex(&mut hex, 0xbeef, 6);
    assert_eq!(hex, "00beef");
    let mut cut = String::new();
    append_hex(&mut cut, 0x12345, 2);
    assert_eq!(cut, "45");
}

#[test]
fn u32_parsing_follows_from_str() {
    for text in ["0", "42", "+42", "4294967295", "007"] {
        assert_eq!(parse_u32(text), text.parse::<u32>().ok());
    }
    for text in ["", "+", "-1", "4294967296", "1a", " 1"] {
        assert_eq!(parse_u32(text), None);
        assert!(text.parse::<u32>().is_err());
    }
}

#[test]
fn string_helpers() {
    assert!(equals_ignoring_ascii_case("V4L2Loopback", "v4l2loopback"));
    assert!(!equals_ignoring_ascii_case("obs", "ob"));
    assert!(str_equal("abc", "abc"));
    assert!(!str_equal("abc", "abd"));
    assert!(str_contains("the v4l2 loopback driver", "v4l2 loopback"));
    assert!(str_contains("abc", ""));
    assert!(!str_contains("ab", "abc"));
    assert_eq!(prefix_end("/dev/video3", "/dev/video"), 10);
    assert_eq!(prefix_end("3", "/dev/video"), 0);
    let parts = vec!["a".to_string(), "b".to_string(), "c".to_string()];
    assert_eq!(join(&parts, ", "), "a, b, c");
    assert_eq!(join(&Vec::new(), ", "), "");
}

#[test]
fn timestamps_are_in_nanoseconds() {
    assert_eq!(ticks_to_nanoseconds(10_000_000, 10_000_000), 1_000_000_000);
    assert_eq!(ticks_to_nanoseconds(5, 0), 0);
    assert_eq!(ticks_to_nanoseconds(1, 3), 333_333_333);
}
