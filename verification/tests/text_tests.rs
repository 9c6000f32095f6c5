use cratesio_mcp::text::{first_sentence, format_number, str_eq, u64_string};

#[test]
fn format_number_small() {
    assert_eq!(format_number(0), "0");
    assert_eq!(format_number(1), "1");
    assert_eq!(format_number(999), "999");
}

#[test]
fn format_number_thousands() {
    assert_eq!(format_number(1_000), "1.0K");
    assert_eq!(format_number(1_500), "1.5K");
    assert_eq!(format_number(999_999), "1000.0K");
}

#[test]
fn format_number_millions() {
    assert_eq!(format_number(1_000_000), "1.0M");
    assert_eq!(format_number(2_500_000), "2.5M");
    assert_eq!(format_number(50_000_000_000), "50000.0M");
}

#[test]
fn first_sentence_extracts_correctly() {
    assert_eq!(first_sentence("Hello world. More text."), "Hello world.");
    assert_eq!(first_sentence("Single line"), "Single line");
    assert_eq!(first_sentence("Ends with period."), "Ends with period.");
    assert_eq!(first_sentence("Line one.\nLine two."), "Line one.");
}

#[test]
fn first_sentence_edge_cases() {
    assert_eq!(first_sentence(""), "");
    assert_eq!(first_sentence("One.\r\nTwo"), "One.");
    assert_eq!(first_sentence("A. B. C."), "A.");
    // A carriage return is stripped only when a newline follows it.
    assert_eq!(first_sentence("abc\r"), "abc\r");
}

#[test]
fn u64_string_renders_decimal() {
    assert_eq!(u64_string(0), "0");
    assert_eq!(u64_string(10), "10");
    assert_eq!(u64_string(18_446_744_073_709_551_615), "18446744073709551615");
}

#[test]
fn str_eq_compares_contents() {
    assert!(str_eq("abc", "abc"));
    assert!(!str_eq("abc", "abd"));
    assert!(!str_eq("abc", "ab"));
    assert!(str_eq("", ""));
}
