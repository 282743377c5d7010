use pastebin::format::{fill_count, format_duration, format_duration_at, format_expires_label,
    remaining_views_label};
use pastebin::models::{I18n, Lang, Strings};
use pastebin::options::{build_expires_options, build_language_options, build_token_length_options};
use pastebin::models::PasteConfig;

fn strings() -> Strings {
    Strings {
        lang: "lang".to_string(),
        app_title: "app_title".to_string(),
        heading: "heading".to_string(),
        slogan: "slogan".to_string(),
        label_title: "label_title".to_string(),
        placeholder_title: "placeholder_title".to_string(),
        label_content: "label_content".to_string(),
        label_expires: "label_expires".to_string(),
        label_token_length: "label_token_length".to_string(),
        label_language: "label_language".to_string(),
        button_create: "button_create".to_string(),
        result_placeholder: "result_placeholder".to_string(),
        result_title: "result_title".to_string(),
        result_open: "result_open".to_string(),
        result_expires_label: "result_expires_label".to_string(),
        detail_back: "detail_back".to_string(),
        detail_expires_label: "detail_expires_label".to_string(),
        detail_copy: "detail_copy".to_string(),
        detail_copy_done: "detail_copy_done".to_string(),
        detail_raw: "detail_raw".to_string(),
        detail_new_paste: "detail_new_paste".to_string(),
        not_found: "not_found".to_string(),
        not_found_title: "not_found_title".to_string(),
        not_found_desc: "not_found_desc".to_string(),
        content_too_long: "content_too_long".to_string(),
        aria_short_link: "aria_short_link".to_string(),
        duration_expired: "expired".to_string(),
        duration_seconds: "{}s left".to_string(),
        duration_minutes: "{}m left".to_string(),
        duration_hours: "{}h left".to_string(),
        duration_days: "{}d left".to_string(),
        expires_seconds_one: "1 second".to_string(),
        expires_seconds_many: "{} seconds".to_string(),
        expires_minutes_one: "1 minute".to_string(),
        expires_minutes_many: "{} minutes".to_string(),
        expires_hours_one: "1 hour".to_string(),
        expires_hours_many: "{} hours".to_string(),
        expires_days_one: "1 day".to_string(),
        expires_days_many: "{} days".to_string(),
        token_length_label: "{} chars".to_string(),
        language_auto: "language_auto".to_string(),
        language_plaintext: "language_plaintext".to_string(),
        language_rust: "language_rust".to_string(),
        language_python: "language_python".to_string(),
        language_javascript: "language_javascript".to_string(),
        language_typescript: "language_typescript".to_string(),
        language_go: "language_go".to_string(),
        language_java: "language_java".to_string(),
        language_cpp: "language_cpp".to_string(),
        language_html: "language_html".to_string(),
        language_css: "language_css".to_string(),
        language_json: "language_json".to_string(),
        language_yaml: "language_yaml".to_string(),
        language_sql: "language_sql".to_string(),
        language_bash: "language_bash".to_string(),
        label_burn: "label_burn".to_string(),
        label_burn_views: "label_burn_views".to_string(),
        detail_remaining_views: "{} views left".to_string(),
        detail_zero_views: "last view".to_string(),
        stat_total_pastes: "{} born".to_string(),
        stat_faded: "{} faded".to_string(),
        label_public: "label_public".to_string(),
        label_public_tooltip: "label_public_tooltip".to_string(),
        explore_title: "explore_title".to_string(),
        explore_hint: "explore_hint".to_string(),
        explore_nav_prev: "explore_nav_prev".to_string(),
        explore_nav_next: "explore_nav_next".to_string(),
        explore_empty: "explore_empty".to_string(),
        explore_swipe_hint: "explore_swipe_hint".to_string(),
        explore_count: "explore_count".to_string(),
        explore_go: "explore_go".to_string(),
        life_remaining: "life_remaining".to_string(),
        life_vibrant: "life_vibrant".to_string(),
        life_fading: "life_fading".to_string(),
        life_dying: "life_dying".to_string(),
        button_renew: "button_renew".to_string(),
        renew_success: "renew_success".to_string(),
        button_fork: "button_fork".to_string(),
    }
}

fn config() -> PasteConfig {
    PasteConfig {
        db_path: "pastes.db".to_string(),
        default_expires_secs: 3600,
        expires_options_secs: vec![60, 3600, 86400, 172800],
        default_token_length: 8,
        token_lengths: vec![4, 8],
        max_content_length: 100,
        max_total_content_length: 1000,
        max_pastes: 10,
    }
}

#[test]
fn test_fill_count() {
    assert_eq!(fill_count("{} born", 12345), "12345 born");
    assert_eq!(fill_count("{} and {}", 7), "7 and 7");
    assert_eq!(fill_count("no placeholder", 3), "no placeholder");
    assert_eq!(fill_count("{} deep", -45), "-45 deep");
}

#[test]
fn test_format_expires_label() {
    let s = strings();
    assert_eq!(format_expires_label(86400, &s), "1 day");
    assert_eq!(format_expires_label(172800, &s), "2 days");
    assert_eq!(format_expires_label(3600, &s), "1 hour");
    assert_eq!(format_expires_label(7200, &s), "2 hours");
    assert_eq!(format_expires_label(60, &s), "1 minute");
    assert_eq!(format_expires_label(300, &s), "5 minutes");
    assert_eq!(format_expires_label(1, &s), "1 second");
    assert_eq!(format_expires_label(45, &s), "45 seconds");
    // an uneven span falls through to seconds
    assert_eq!(format_expires_label(3661, &s), "3661 seconds");
}

#[test]
fn test_format_duration_at() {
    let s = strings();
    assert_eq!(format_duration_at(100, 100, &s), "expired");
    assert_eq!(format_duration_at(100, 150, &s), "expired");
    assert_eq!(format_duration_at(159, 100, &s), "59s left");
    assert_eq!(format_duration_at(100 + 1800, 100, &s), "30m left");
    assert_eq!(format_duration_at(100 + 7200, 100, &s), "2h left");
    assert_eq!(format_duration_at(100 + 86400 * 3, 100, &s), "3d left");
}

#[test]
fn test_format_duration_uses_clock() {
    let s = strings();
    // far in the past: expired whatever the clock says
    assert_eq!(format_duration(1, &s), "expired");
}

#[test]
fn test_remaining_views_label() {
    let s = strings();
    assert_eq!(remaining_views_label(None, 0, &s), None);
    assert_eq!(remaining_views_label(Some(3), 0, &s), Some("2 views left".to_string()));
    assert_eq!(remaining_views_label(Some(3), 2, &s), Some("last view".to_string()));
    assert_eq!(remaining_views_label(Some(1), 0, &s), Some("last view".to_string()));
}

#[test]
fn test_i18n_strings() {
    let mut zh = strings();
    zh.lang = "zh".to_string();
    let mut en = strings();
    en.lang = "en".to_string();
    let i18n = I18n { zh, en };
    assert_eq!(i18n.strings(Lang::Zh).lang, "zh");
    assert_eq!(i18n.strings(Lang::En).lang, "en");
}

#[test]
fn test_build_expires_options() {
    let s = strings();
    let c = config();
    let opts = build_expires_options(&c, &s);
    assert_eq!(opts.len(), 4);
    assert_eq!(opts[0].value, 60);
    assert_eq!(opts[0].label, "1 minute");
    assert!(!opts[0].selected);
    assert_eq!(opts[1].value, 3600);
    assert!(opts[1].selected);
    assert_eq!(opts[3].label, "2 days");
}

#[test]
fn test_build_token_length_options() {
    let s = strings();
    let c = config();
    let opts = build_token_length_options(&c, &s);
    assert_eq!(opts.len(), 2);
    assert_eq!(opts[0].value, 4);
    assert_eq!(opts[0].label, "4 chars");
    assert!(!opts[0].selected);
    assert!(opts[1].selected);
}

#[test]
fn test_build_language_options() {
    let s = strings();
    let opts = build_language_options(&s);
    assert_eq!(opts.len(), 15);
    assert_eq!(opts[0].value, "auto");
    assert_eq!(opts[0].label, "language_auto");
    assert!(opts[0].selected);
    assert_eq!(opts[2].value, "rust");
    assert!(!opts[2].selected);
    assert_eq!(opts[14].value, "bash");
}
