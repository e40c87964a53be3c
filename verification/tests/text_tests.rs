use crosspost::text::clamp_text;
use crosspost::text::normalize_text;

#[test]
fn clamp_keeps_short_text() {
    let s = "hello".to_string();
    assert_eq!(clamp_text(s, 300), "hello");
}

#[test]
fn clamp_at_zero_is_empty() {
    assert_eq!(clamp_text("anything".to_string(), 0), "");
}

#[test]
fn clamp_exact_limit_unchanged() {
    let s = "a".repeat(300);
    assert_eq!(clamp_text(s.clone(), 300), s);
}

#[test]
fn clamp_long_latin_title() {
    // 305 letters clamp to 299 letters plus the ellipsis: 300 codepoints.
    let s = "a".repeat(305);
    let clamped = clamp_text(s, 300);
    assert_eq!(clamped.chars().count(), 300);
    let expected = format!("{}\u{2026}", "a".repeat(299));
    assert_eq!(clamped, expected);
}

#[test]
fn clamp_counts_codepoints_not_bytes() {
    // Five four-byte emoji exceed a limit of 3 codepoints.
    let s = "\u{1F600}\u{1F600}\u{1F600}\u{1F600}\u{1F600}".to_string();
    let clamped = clamp_text(s, 3);
    assert_eq!(clamped.chars().count(), 3);
    assert_eq!(clamped, "\u{1F600}\u{1F600}\u{2026}");
}

#[test]
fn clamp_limit_one_is_bare_ellipsis() {
    assert_eq!(clamp_text("long enough".to_string(), 1), "\u{2026}");
}

#[test]
fn clamp_is_idempotent() {
    let s = "x".repeat(450);
    let once = clamp_text(s.clone(), 300);
    let twice = clamp_text(once.clone(), 300);
    assert_eq!(once, twice);
}

#[test]
fn normalize_collapses_whitespace() {
    assert_eq!(normalize_text("  Hello\t\n  World "), Some("Hello World".to_string()));
}

#[test]
fn normalize_of_blank_is_absent() {
    assert_eq!(normalize_text(""), None);
    assert_eq!(normalize_text(" \t\r\n "), None);
}

#[test]
fn normalize_keeps_single_spaced_text() {
    assert_eq!(normalize_text("already clean"), Some("already clean".to_string()));
}

#[test]
fn normalize_handles_unicode_spaces() {
    assert_eq!(normalize_text("a\u{00A0}\u{2003}b"), Some("a b".to_string()));
}
