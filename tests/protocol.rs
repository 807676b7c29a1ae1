use ffmpeg_progress::numbers::{is_float_text, parse_u64};
use ffmpeg_progress::protocol::parse_line;

#[test]
fn parse_line_trims_key_and_value() {
    assert_eq!(parse_line("  frame = 100 \n"), Some(("frame", "100")));
    assert_eq!(parse_line("fps=29.97"), Some(("fps", "29.97")));
}

#[test]
fn parse_line_splits_at_first_separator() {
    assert_eq!(parse_line("a=b=c"), Some(("a", "b=c")));
    assert_eq!(parse_line("key="), Some(("key", "")));
    assert_eq!(parse_line("=value"), Some(("", "value")));
}

#[test]
fn parse_line_without_separator_is_none() {
    assert_eq!(parse_line("garbage"), None);
    assert_eq!(parse_line(""), None);
    assert_eq!(parse_line("   \n"), None);
}

#[test]
fn parse_line_trims_unicode_whitespace() {
    assert_eq!(parse_line("\u{3000}k\u{a0}=\u{2003}v\t"), Some(("k", "v")));
    assert_eq!(parse_line("k x = v y"), Some(("k x", "v y")));
}

#[test]
fn parse_u64_reads_integers_like_std() {
    assert_eq!(parse_u64("100"), Some(100));
    assert_eq!(parse_u64("+7"), Some(7));
    assert_eq!(parse_u64("0"), Some(0));
    assert_eq!(parse_u64("18446744073709551615"), Some(u64::MAX));
    assert_eq!(parse_u64("18446744073709551616"), None);
    assert_eq!(parse_u64(""), None);
    assert_eq!(parse_u64("+"), None);
    assert_eq!(parse_u64("-1"), None);
    assert_eq!(parse_u64("12a"), None);
    assert_eq!(parse_u64(" 1"), None);
    for s in ["100", "+7", "", "+", "-1", "12a", "18446744073709551616", "007"] {
        assert_eq!(parse_u64(s), s.parse::<u64>().ok(), "{}", s);
    }
}

#[test]
fn float_text_agrees_with_std() {
    let cases = [
        "29.97", "1.02", "5.", ".5", "1e5", "1E-3", "2.5e+10", "+inf", "-Infinity", "NaN", "iNf",
        "0", "", ".", "e5", "1e", "1e+", "abc", "1.2.3", "N/A", " 1", "1 ", "--1", "infinit",
        "1.02x", "+", "-.5", "0x10",
    ];
    for s in cases {
        assert_eq!(is_float_text(s), s.parse::<f64>().is_ok(), "{}", s);
    }
    assert!(is_float_text("29.97"));
    assert!(!is_float_text("N/A"));
}
