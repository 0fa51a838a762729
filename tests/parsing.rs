use autoripper::protocol::{
    parse_csv_line, parse_duration_to_seconds, parse_i32, parse_i64, parse_i8, parse_unsigned, parse_usize,
    split_at_char, DurationError,
};
use autoripper::text::{contains, decimal_text, join, padded_decimal_text, remove_char, starts_with, strip_repeated_prefix};

#[test]
fn quoted_comma_stays_in_field() {
    assert_eq!(parse_csv_line("a,\"b,c\",d"), vec!["a", "b,c", "d"]);
}

#[test]
fn quoted_fields_from_doc_example() {
    let parsed = parse_csv_line(r#""John, Doe",28,"New York, USA""#);
    assert_eq!(parsed, vec!["John, Doe", "28", "New York, USA"]);
}

#[test]
fn unterminated_quote_runs_to_end() {
    assert_eq!(parse_csv_line("a,\"b,c,d"), vec!["a", "b,c,d"]);
}

#[test]
fn empty_line_is_one_empty_field() {
    assert_eq!(parse_csv_line(""), vec![""]);
}

#[test]
fn empty_fields_are_kept() {
    assert_eq!(parse_csv_line(",x,"), vec!["", "x", ""]);
}

#[test]
fn protocol_record_splits() {
    let cols = parse_csv_line("TINFO:0,2,0,\"Movie, The\"");
    assert_eq!(cols, vec!["TINFO:0", "2", "0", "Movie, The"]);
}

#[test]
fn duration_converts_to_seconds() {
    assert_eq!(parse_duration_to_seconds("01:23:45"), Ok(5025));
    assert_eq!(parse_duration_to_seconds("0:00:00"), Ok(0));
    assert_eq!(parse_duration_to_seconds("00:90:00"), Ok(5400));
}

#[test]
fn duration_rejects_malformed() {
    assert_eq!(parse_duration_to_seconds("01:23"), Err(DurationError::Format));
    assert_eq!(parse_duration_to_seconds("01:23:45:00"), Err(DurationError::Format));
    assert_eq!(parse_duration_to_seconds("01-23-45"), Err(DurationError::Format));
    assert_eq!(parse_duration_to_seconds(""), Err(DurationError::Format));
    assert_eq!(parse_duration_to_seconds("aa:23:45"), Err(DurationError::Hour));
    assert_eq!(parse_duration_to_seconds("01::45"), Err(DurationError::Minute));
    assert_eq!(parse_duration_to_seconds("01:23:4x"), Err(DurationError::Second));
    assert_eq!(parse_duration_to_seconds("-1:23:45"), Err(DurationError::Hour));
    assert_eq!(parse_duration_to_seconds("9999999:00:00"), Err(DurationError::Overflow));
}

#[test]
fn integers_parse_like_std() {
    assert_eq!(parse_usize("42"), Some(42));
    assert_eq!(parse_usize("+7"), Some(7));
    assert_eq!(parse_usize("-0"), None);
    assert_eq!(parse_usize(""), None);
    assert_eq!(parse_usize("+"), None);
    assert_eq!(parse_i8("-128"), Some(-128));
    assert_eq!(parse_i8("127"), Some(127));
    assert_eq!(parse_i8("128"), None);
    assert_eq!(parse_i8("-129"), None);
    assert_eq!(parse_i32("-2147483648"), Some(i32::MIN));
    assert_eq!(parse_i64("9223372036854775807"), Some(i64::MAX));
    assert_eq!(parse_i64("-9223372036854775808"), Some(i64::MIN));
    assert_eq!(parse_i64("9223372036854775808"), None);
    assert_eq!(parse_unsigned("18446744073709551615", u64::MAX), Some(u64::MAX));
    assert_eq!(parse_unsigned("18446744073709551616", u64::MAX), None);
    assert_eq!(parse_unsigned("12a", u64::MAX), None);
    for s in ["0", "1", "+5", "-5", "300", "-300", "x", ""] {
        assert_eq!(parse_i8(s), s.parse::<i8>().ok());
        assert_eq!(parse_usize(s), s.parse::<usize>().ok());
    }
}

#[test]
fn split_keeps_empty_pieces() {
    assert_eq!(split_at_char("a::b", ':'), vec!["a", "", "b"]);
    assert_eq!(split_at_char("", ':'), vec![""]);
}

#[test]
fn text_helpers() {
    assert!(starts_with("CINFO:1", "CINFO:"));
    assert!(!starts_with("CINF", "CINFO:"));
    assert_eq!(strip_repeated_prefix("CINFO:CINFO:12", "CINFO:"), "12");
    assert_eq!(strip_repeated_prefix("12", "CINFO:"), "12");
    assert!(contains("  \"Progress\": 0.5,", "\"Progress\""));
    assert!(!contains("\"State\": \"WORKING\"", "\"Progress\""));
    assert_eq!(remove_char("1,2,3", ','), "123");
    assert_eq!(decimal_text(0), "0");
    assert_eq!(decimal_text(90210), "90210");
    assert_eq!(padded_decimal_text(3, 2), "03");
    assert_eq!(padded_decimal_text(123, 2), "123");
    assert_eq!(join("/out", "a.mkv"), "/out/a.mkv");
    assert_eq!(join("/out/", "a.mkv"), "/out/a.mkv");
    assert_eq!(join("", "a.mkv"), "a.mkv");
}
