use rivulet_core::text_source::{
    parse_hex_rgb, text_char_count, text_is_empty, text_line_count, text_summary,
};

#[test]
fn rgba_from_hex_valid() {
    let (r, g, b) = parse_hex_rgb("#FF8800").unwrap();
    assert_eq!((r, g, b), (255, 0x88, 0));
    assert!((r as f32 / 255.0 - 1.0).abs() < 0.01);
    assert!((g as f32 / 255.0 - 0x88 as f32 / 255.0).abs() < 0.01);
}

#[test]
fn rgba_from_hex_without_hash() {
    assert_eq!(parse_hex_rgb("00FF00"), Some((0, 255, 0)));
    assert_eq!(parse_hex_rgb("##00ff0a"), Some((0, 255, 10)));
}

#[test]
fn rgba_from_hex_invalid() {
    assert!(parse_hex_rgb("#GGG").is_none());
    assert!(parse_hex_rgb("#12").is_none());
    assert!(parse_hex_rgb("longstring").is_none());
    assert!(parse_hex_rgb("#GG0000").is_none());
    assert!(parse_hex_rgb("#ääá").is_none());
}

#[test]
fn hex_pairs_follow_integer_parsing() {
    assert_eq!(parse_hex_rgb("+F+F+F"), Some((15, 15, 15)));
    assert!(parse_hex_rgb("-F0000").is_none());
}

#[test]
fn text_source_is_empty_whitespace() {
    assert!(text_is_empty("   \n\t  "));
}

#[test]
fn text_source_is_not_empty() {
    assert!(!text_is_empty("Hello World"));
}

#[test]
fn text_source_char_count() {
    assert_eq!(text_char_count("Hello"), 5);
    assert_eq!(text_char_count("Ünïcödé"), 7);
}

#[test]
fn text_source_line_count() {
    assert_eq!(text_line_count("Line1\nLine2\nLine3"), 3);
}

#[test]
fn text_source_line_count_empty() {
    assert_eq!(text_line_count(""), 0);
}

#[test]
fn text_source_line_count_single() {
    assert_eq!(text_line_count("Single line"), 1);
}

#[test]
fn line_count_matches_std_lines() {
    for text in ["a\n", "\n", "a\n\nb", "a\r\nb\r\n", "\n\n", "x"] {
        assert_eq!(text_line_count(text), text.lines().count(), "{text:?}");
    }
}

#[test]
fn text_source_summary_short() {
    let s = text_summary("Hi");
    assert!(s.contains("2 chars"));
    assert!(s.contains("1 lines"));
    assert!(s.contains("Hi"));
    assert_eq!(s, "2 chars, 1 lines: Hi");
}

#[test]
fn text_source_summary_long_truncates() {
    let long_text = "A".repeat(60);
    let s = text_summary(&long_text);
    assert!(s.contains("60 chars"));
    assert!(s.ends_with('…'));
    assert_eq!(s, format!("60 chars, 1 lines: {}…", "A".repeat(40)));
}

#[test]
fn text_source_summary_multiline() {
    let s = text_summary("a\nb\nc");
    assert!(s.contains("3 lines"));
}

#[test]
fn summary_cuts_after_forty_bytes() {
    let text = format!("{}{}", "ä".repeat(20), "tail");
    let s = text_summary(&text);
    assert_eq!(s, format!("24 chars, 1 lines: {}…", "ä".repeat(20)));
}
