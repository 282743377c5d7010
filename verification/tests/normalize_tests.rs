use pastebin::models::PasteConfig;
use pastebin::normalize::{is_allowed_language, normalize_expires_in, normalize_language,
    normalize_max_views, normalize_title, normalize_token_length, parse_i64};

fn config() -> PasteConfig {
    PasteConfig {
        db_path: "pastes.db".to_string(),
        default_expires_secs: 3600,
        expires_options_secs: vec![60, 3600, 86400],
        default_token_length: 8,
        token_lengths: vec![4, 8, 16],
        max_content_length: 100,
        max_total_content_length: 1000,
        max_pastes: 10,
    }
}

#[test]
fn test_is_allowed_language() {
    assert!(is_allowed_language("rust"));
    assert!(is_allowed_language("auto"));
    assert!(!is_allowed_language("malicious"));
}

#[test]
fn test_normalize_title() {
    assert_eq!(normalize_title(Some("Test".to_string()), "content"), "Test");
    assert_eq!(normalize_title(None, "First line\nSecond line"), "First line");
    assert_eq!(normalize_title(None, ""), "Untitled");
}

#[test]
fn test_normalize_title_trims_and_caps() {
    assert_eq!(normalize_title(Some("  padded  ".to_string()), ""), "padded");
    assert_eq!(normalize_title(Some("   ".to_string()), "  fallback  \nrest"), "fallback");
    let long = "a".repeat(120);
    assert_eq!(normalize_title(None, &long), "a".repeat(80));
}

#[test]
fn test_normalize_expires_in() {
    let c = config();
    assert_eq!(normalize_expires_in(Some(60), &c), 60);
    assert_eq!(normalize_expires_in(Some(61), &c), 3600);
    assert_eq!(normalize_expires_in(None, &c), 3600);
}

#[test]
fn test_normalize_token_length() {
    let c = config();
    assert_eq!(normalize_token_length(Some(16), &c), 16);
    assert_eq!(normalize_token_length(Some(5), &c), 8);
    assert_eq!(normalize_token_length(None, &c), 8);
}

#[test]
fn test_normalize_language() {
    assert_eq!(normalize_language(Some("Rust".to_string())), "rust");
    assert_eq!(normalize_language(Some("COBOL".to_string())), "auto");
    assert_eq!(normalize_language(None), "auto");
}

#[test]
fn test_normalize_max_views() {
    assert_eq!(normalize_max_views(Some("3".to_string())), Some(3));
    assert_eq!(normalize_max_views(Some("0".to_string())), None);
    assert_eq!(normalize_max_views(Some("-2".to_string())), None);
    assert_eq!(normalize_max_views(Some("lots".to_string())), None);
    assert_eq!(normalize_max_views(None), None);
}

#[test]
fn test_parse_i64() {
    assert_eq!(parse_i64("0"), Some(0));
    assert_eq!(parse_i64("42"), Some(42));
    assert_eq!(parse_i64("+7"), Some(7));
    assert_eq!(parse_i64("-15"), Some(-15));
    assert_eq!(parse_i64("9223372036854775807"), Some(i64::MAX));
    assert_eq!(parse_i64("-9223372036854775808"), Some(i64::MIN));
    assert_eq!(parse_i64("9223372036854775808"), None);
    assert_eq!(parse_i64("-9223372036854775809"), None);
    assert_eq!(parse_i64(""), None);
    assert_eq!(parse_i64("-"), None);
    assert_eq!(parse_i64("1 2"), None);
    assert_eq!(parse_i64("12a"), None);
}
