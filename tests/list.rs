use podcast_summarize::text::{format_duration, indent, truncate};

#[test]
fn format_duration_minutes_only() {
    assert_eq!(format_duration(300), "5m");
    assert_eq!(format_duration(59 * 60), "59m");
}

#[test]
fn format_duration_hours_and_minutes() {
    assert_eq!(format_duration(3600), "1h00m");
    assert_eq!(format_duration(3661), "1h01m");
    assert_eq!(format_duration(7200 + 1800), "2h30m");
}

#[test]
fn format_duration_zero() {
    assert_eq!(format_duration(0), "0m");
}

#[test]
fn format_duration_large_and_negative() {
    assert_eq!(format_duration(36000 + 45 * 60 + 59), "10h45m");
    assert_eq!(format_duration(-300), "-5m");
    assert_eq!(format_duration(-30), "0m");
    assert_eq!(format_duration(i64::MIN), "-30m");
}

#[test]
fn truncate_short_string() {
    assert_eq!(truncate("hello", 10), "hello");
}

#[test]
fn truncate_exact_length() {
    assert_eq!(truncate("hello", 5), "hello");
}

#[test]
fn truncate_long_string() {
    assert_eq!(truncate("hello world!", 8), "hello...");
}

#[test]
fn truncate_unicode() {
    let s = "你好世界測試文字串";
    let result = truncate(s, 6);
    assert_eq!(result, "你好世...");
}

#[test]
fn indent_follows_lines() {
    for s in ["", "a", "a\nb", "a\n", "a\n\nb", "a\r\nb\r\n", "a\r", "\n", "x\ny\r"] {
        let expected = s.lines().map(|l| format!("  {l}")).collect::<Vec<_>>().join("\n");
        assert_eq!(indent(s, 2), expected, "{:?}", s);
    }
    assert_eq!(indent("one\ntwo", 0), "one\ntwo");
}
