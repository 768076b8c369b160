use bmap::device::{parse_firmware, parse_product_name};
use bmap::error::BmapError;
use bmap::text::{chars_of, eq_ignore_ascii_case, parse_hex, split_str, str_equal};

#[test]
fn invalid_utf8_is_replaced_not_passed_through() {
    assert_eq!(parse_firmware(&[0x38, 0xff, 0x39]), "8\u{FFFD}9");
    assert_eq!(parse_product_name(&[0x00, 0xC3]), "\u{FFFD}");
    assert_eq!(parse_firmware("é".as_bytes()), "é");
}

#[test]
fn text_helpers() {
    assert!(eq_ignore_ascii_case("Quiet", "qUIET"));
    assert!(!eq_ignore_ascii_case("Quiet", "Quie"));
    assert!(str_equal("a", "a"));
    assert!(!str_equal("a", "b"));
    assert_eq!(split_str("a::b", ':'), vec!["a", "", "b"]);
    assert_eq!(split_str("", ':'), vec![""]);
    assert_eq!(parse_hex(&chars_of("ff"), 255), Some(255));
    assert_eq!(parse_hex(&chars_of("100"), 255), None);
    assert_eq!(parse_hex(&chars_of("+"), 255), None);
    assert_eq!(parse_hex(&chars_of("+1A"), 255), Some(26));
}

#[test]
fn error_descriptions() {
    assert_eq!(BmapError::Timeout("x".to_string()).describe(), "Timeout: x");
    assert_eq!(BmapError::Device { message: "m".to_string(), code: 3 }.describe(), "Device error: m");
    assert_eq!(BmapError::NotFound("n".to_string()).describe(), "Not found: n");
}
