use backlog_mcp::text::{format_bytes, format_signed_bytes, truncate_text};

#[test]
fn test_truncate_text() {
    assert_eq!(truncate_text("Hello", 10), "Hello");
    assert_eq!(truncate_text("Hello World", 5), "Hello...");
    assert_eq!(truncate_text("こんにちは世界", 9), "こんに...");
}

#[test]
fn test_format_bytes() {
    assert_eq!(format_bytes(0), "0 B");
    assert_eq!(format_bytes(1023), "1023 B");
    assert_eq!(format_bytes(1024), "1.0 KB");
    assert_eq!(format_bytes(1536), "1.5 KB");
    assert_eq!(format_bytes(1048576), "1.0 MB");
    assert_eq!(format_bytes(1073741824), "1.0 GB");
}

#[test]
fn truncate_text_cuts_inside_a_multibyte_character() {
    // Each of these characters takes three bytes: a limit of 10 keeps three.
    assert_eq!(truncate_text("こんにちは", 10), "こんに...");
    assert_eq!(truncate_text("こんにちは", 2), "...");
    assert_eq!(truncate_text("", 0), "");
    assert_eq!(truncate_text("abc", 3), "abc");
}

#[test]
fn format_bytes_matches_float_formatting() {
    for b in [
        1024u64, 1100, 1280, 1330, 2047, 10239, 1048575, 1048576 * 5 + 52429,
        1099511627775, 1099511627776, 1u64 << 52, (1u64 << 53) + 1, (1u64 << 60) - 1,
        u64::MAX, u64::MAX - 2048, 123456789012345,
    ] {
        let units = ["B", "KB", "MB", "GB", "TB"];
        let mut size = b as f64;
        let mut unit = 0;
        while size >= 1024.0 && unit < units.len() - 1 {
            size /= 1024.0;
            unit += 1;
        }
        let expected = if unit == 0 {
            format!("{} {}", size as u64, units[unit])
        } else {
            format!("{:.1} {}", size, units[unit])
        };
        assert_eq!(format_bytes(b), expected, "bytes = {b}");
    }
}

#[test]
fn format_signed_bytes_shows_sign_and_two_decimals() {
    assert_eq!(format_signed_bytes(0), "0 B");
    assert_eq!(format_signed_bytes(-5), "-5 B");
    assert_eq!(format_signed_bytes(1536), "1.50 KB");
    assert_eq!(format_signed_bytes(-1536), "-1.50 KB");
    assert_eq!(format_signed_bytes(1073741824), "1.00 GB");
    for b in [1025i64, 3333333, -98765432109, i64::MAX] {
        let abs = b.abs() as f64;
        let units = ["B", "KB", "MB", "GB", "TB"];
        let mut size = abs;
        let mut unit = 0;
        while size >= 1024.0 && unit < units.len() - 1 {
            size /= 1024.0;
            unit += 1;
        }
        let body = format!("{:.2} {}", size, units[unit]);
        let expected = if b < 0 { format!("-{body}") } else { body };
        assert_eq!(format_signed_bytes(b), expected, "bytes = {b}");
    }
}
