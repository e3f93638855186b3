use omdesky::text::{
    is_presentation_safe, sanitize_for_display, sanitize_optional, DISPLAY_NAME_LIMIT,
};

#[test]
fn test_sanitize_replaces_escape_and_osc_sequences() {
    let hostile = "desk\u{1b}]8;;https://evil.example\u{7}top";

    let sanitized = sanitize_for_display(hostile, DISPLAY_NAME_LIMIT);

    assert!(!sanitized.contains('\u{1b}'));
    assert!(!sanitized.contains('\u{7}'));
    assert!(sanitized.starts_with("desk\u{fffd}]8;;"));
}

#[test]
fn test_sanitize_replaces_bidi_overrides() {
    let hostile = "safe\u{202e}gnp.exe";

    let sanitized = sanitize_for_display(hostile, DISPLAY_NAME_LIMIT);

    assert_eq!(sanitized, "safe\u{fffd}gnp.exe");
}

#[test]
fn test_sanitize_replaces_c1_controls_and_newlines() {
    let sanitized = sanitize_for_display("a\nb\u{85}c\td", DISPLAY_NAME_LIMIT);

    assert_eq!(sanitized, "a\u{fffd}b\u{fffd}c\u{fffd}d");
}

#[test]
fn test_sanitize_truncates_beyond_the_limit() {
    let sanitized = sanitize_for_display(&"x".repeat(200), 8);

    assert_eq!(sanitized, "xxxxxxxx…");
}

#[test]
fn test_sanitize_preserves_ordinary_text() {
    assert_eq!(
        sanitize_for_display("desktop-a · 100.64.0.7", DISPLAY_NAME_LIMIT),
        "desktop-a · 100.64.0.7"
    );
}

#[test]
fn test_sanitize_optional_maps_absent_values() {
    assert_eq!(sanitize_optional(None, DISPLAY_NAME_LIMIT), None);
    assert_eq!(
        sanitize_optional(Some("ok"), DISPLAY_NAME_LIMIT),
        Some("ok".to_owned())
    );
}

#[test]
fn sanitized_text_is_safe_and_bounded() {
    let sanitized = sanitize_for_display("a\u{0}b\u{feff}c\u{2066}dddd", 6);

    assert_eq!(sanitized, "a\u{fffd}b\u{fffd}c\u{fffd}…");
    assert!(sanitized.chars().all(is_presentation_safe));
    assert_eq!(sanitize_for_display(&sanitized, 7), sanitized);
}
