use ritual_tray::native_widget::{
    check_dashboard_refresh_trigger, close_native_timer_widget, create_native_timer_widget,
    native_widget_command, token_preview, write_auth_token_to_file, FileWrite, IoError, WidgetAction,
    WidgetCommand, NO_SIGNAL, TOKEN_PREVIEW_CHARS,
};
use std::collections::HashMap;

fn timestamp(contents: Option<&str>) -> f64 {
    check_dashboard_refresh_trigger(contents).parse::<f64>().unwrap()
}

/// A stand-in for the directory: what each write leaves behind.
fn carry_out(files: &mut HashMap<String, Vec<u8>>, write: &FileWrite) {
    files.insert(write.path.clone(), write.contents.clone());
}

#[test]
fn launching_asks_for_the_widget_process() {
    let expected = WidgetCommand {
        program: String::from("target/release/NativeTimerWidget"),
        args: Vec::new(),
        detached: true,
    };
    assert_eq!(native_widget_command(), expected);
    assert_eq!(create_native_timer_widget(), WidgetAction::Spawn(expected));
}

#[test]
fn launching_twice_asks_twice() {
    let first = create_native_timer_widget();
    let second = create_native_timer_widget();
    assert!(matches!(first, WidgetAction::Spawn(_)));
    assert_eq!(first, second);
}

#[test]
fn closing_asks_for_nothing() {
    assert_eq!(close_native_timer_widget(), WidgetAction::Nothing);
}

#[test]
fn token_goes_to_the_token_file_byte_for_byte() {
    let write = write_auth_token_to_file("/tmp", "abc123");
    assert_eq!(write.path, "/tmp/ritual_auth_token.txt");
    assert_eq!(write.contents, b"abc123".to_vec());
}

#[test]
fn token_round_trip() {
    for token in ["", "abc123", "h\u{e9}llo \u{2713} \u{65e5}\u{672c}\u{8a9e} \u{1F600}", " padded \n", "a\0b", "eyJhbGciOiJIUzI1NiJ9.e30.x"] {
        let mut files = HashMap::new();
        carry_out(&mut files, &write_auth_token_to_file("/tmp", token));
        let read_back = String::from_utf8(files["/tmp/ritual_auth_token.txt"].clone()).unwrap();
        assert_eq!(read_back, token);
        assert_eq!(files["/tmp/ritual_auth_token.txt"], token.as_bytes());
    }
}

#[test]
fn token_overwrite() {
    let mut files = HashMap::new();
    carry_out(&mut files, &write_auth_token_to_file("/tmp", "first-token-that-is-long"));
    carry_out(&mut files, &write_auth_token_to_file("/tmp", "second"));
    assert_eq!(files.len(), 1);
    assert_eq!(files["/tmp/ritual_auth_token.txt"], b"second".to_vec());
}

#[test]
fn empty_token_gives_an_empty_file() {
    let write = write_auth_token_to_file("/tmp/", "");
    assert_eq!(write.path, "/tmp/ritual_auth_token.txt");
    assert!(write.contents.is_empty());
}

#[test]
fn a_write_that_succeeded_reports_its_path() {
    let write = write_auth_token_to_file("/tmp", "abc123");
    assert_eq!(write.conclude(None), Ok(String::from("/tmp/ritual_auth_token.txt")));
}

#[test]
fn a_write_that_failed_reports_the_system_message() {
    let write = write_auth_token_to_file("/nowhere", "abc123");
    let result = write.conclude(Some(String::from("No such file or directory (os error 2)")));
    let error = result.unwrap_err();
    assert_eq!(error, IoError { os_message: String::from("No such file or directory (os error 2)") });
    assert_eq!(error.to_message(), "Failed to write token file: No such file or directory (os error 2)");
}

#[test]
fn io_error_with_an_empty_message() {
    let error = IoError { os_message: String::new() };
    assert_eq!(error.to_message(), "Failed to write token file: ");
}

#[test]
fn token_preview_shows_at_most_twenty_chars() {
    assert_eq!(TOKEN_PREVIEW_CHARS, 20);
    assert_eq!(token_preview(""), "");
    assert_eq!(token_preview("abc123"), "abc123");
    assert_eq!(token_preview("12345678901234567890"), "12345678901234567890");
    assert_eq!(token_preview("123456789012345678901"), "12345678901234567890");
    assert_eq!(token_preview("eyJhbGciOiJIUzI1NiJ9.e30.signature"), "eyJhbGciOiJIUzI1NiJ9");
}

#[test]
fn token_preview_counts_chars_not_bytes() {
    let token = "\u{65e5}\u{672c}\u{8a9e}".repeat(10);
    assert_eq!(token_preview(&token), token.chars().take(20).collect::<String>());
}

#[test]
fn missing_trigger_file_reads_zero() {
    assert_eq!(check_dashboard_refresh_trigger(None), "0.0");
    assert_eq!(NO_SIGNAL, "0.0");
    assert_eq!(timestamp(None), 0.0);
}

#[test]
fn non_numeric_trigger_reads_zero() {
    assert_eq!(check_dashboard_refresh_trigger(Some("abc")), "0.0");
    assert_eq!(timestamp(Some("abc")), 0.0);
}

#[test]
fn numeric_trigger_reads_its_value() {
    assert_eq!(check_dashboard_refresh_trigger(Some("1234.5")), "1234.5");
    assert_eq!(timestamp(Some("1234.5")), 1234.5);
}

#[test]
fn trigger_tolerates_whitespace_around_the_number() {
    assert_eq!(check_dashboard_refresh_trigger(Some(" 1234.5\n")), "1234.5");
    assert_eq!(timestamp(Some(" 1234.5\n")), 1234.5);
    assert_eq!(timestamp(Some("\r\n\t1e3\u{3000}")), 1000.0);
}

#[test]
fn trigger_with_whitespace_inside_reads_zero() {
    assert_eq!(timestamp(Some("1234 .5")), 0.0);
    assert_eq!(timestamp(Some("1 2")), 0.0);
}

#[test]
fn empty_or_blank_trigger_reads_zero() {
    assert_eq!(check_dashboard_refresh_trigger(Some("")), "0.0");
    assert_eq!(check_dashboard_refresh_trigger(Some(" \n ")), "0.0");
}

#[test]
fn trigger_value_is_not_checked_for_range() {
    assert_eq!(timestamp(Some("-5")), -5.0);
    assert_eq!(timestamp(Some("1e400")), f64::INFINITY);
    assert_eq!(timestamp(Some("-1e400")), f64::NEG_INFINITY);
    assert_eq!(timestamp(Some("1e-400")), 0.0);
    assert_eq!(timestamp(Some("0")), 0.0);
}

#[test]
fn words_for_numbers_read_zero() {
    for text in ["NaN", "nan", "-nan", "inf", "-inf", "+Inf", "infinity", "-INFINITY", " NaN\n", " inf "] {
        assert_eq!(check_dashboard_refresh_trigger(Some(text)), "0.0", "{:?}", text);
        assert_eq!(timestamp(Some(text)), 0.0, "{:?}", text);
    }
}

#[test]
fn the_timestamp_is_never_nan() {
    let samples = [None, Some(""), Some("NaN"), Some(" nan "), Some("abc"), Some("0"), Some("1e400"), Some("-0.0")];
    for contents in samples {
        let value = timestamp(contents);
        assert!(!value.is_nan(), "{:?}", contents);
        assert_eq!(value, value);
    }
}

#[test]
fn trigger_agrees_with_trim_and_parse_on_samples() {
    let samples = [
        "", " ", "abc", "1234.5", " 1234.5\n", "1700000000.0", "1700000000000", "1e3", "1e", ".", "+.5",
        "\u{a0}7\u{a0}", "7\u{200b}", "0x10", "12abc", "abc12", "--1", "infinity", " nan ", "1,5",
    ];
    for text in samples {
        // What the float parser makes of the trimmed text, where that is
        // written out in digits.
        let core = text.trim();
        let written_out = core.chars().any(|c| c.is_ascii_digit());
        let expected = core.parse::<f64>().ok().filter(|_| written_out).unwrap_or(0.0);
        assert_eq!(timestamp(Some(text)), expected, "{:?}", text);
    }
}

#[test]
fn what_was_read_reads_the_same_again() {
    for text in ["", "abc", " 1234.5\n", "1e3", "-inf", " NaN"] {
        let once = check_dashboard_refresh_trigger(Some(text));
        assert_eq!(check_dashboard_refresh_trigger(Some(&once)), once);
    }
}

#[test]
fn token_then_trigger_in_tmp() {
    let mut files = HashMap::new();
    let write = write_auth_token_to_file("/tmp", "abc123");
    carry_out(&mut files, &write);
    assert_eq!(files["/tmp/ritual_auth_token.txt"], b"abc123".to_vec());
    assert_eq!(write.conclude(None), Ok(String::from("/tmp/ritual_auth_token.txt")));
    // The widget answers.
    files.insert(ritual_tray::handshake::refresh_trigger_path("/tmp"), b"1700000000.0".to_vec());
    let found = files.get("/tmp/ritual_timer_updated.txt").map(|bytes| std::str::from_utf8(bytes).unwrap());
    assert_eq!(timestamp(found), 1700000000.0);
}

#[test]
fn token_write_leaves_the_trigger_file_alone() {
    let mut files = HashMap::new();
    files.insert(String::from("/tmp/ritual_timer_updated.txt"), b"1700000000.0".to_vec());
    files.insert(String::from("/tmp/unrelated"), b"x".to_vec());
    carry_out(&mut files, &write_auth_token_to_file("/tmp", "abc123"));
    assert_eq!(files.len(), 3);
    assert_eq!(files["/tmp/ritual_timer_updated.txt"], b"1700000000.0".to_vec());
    assert_eq!(files["/tmp/unrelated"], b"x".to_vec());
    assert_eq!(files["/tmp/ritual_auth_token.txt"], b"abc123".to_vec());
}
