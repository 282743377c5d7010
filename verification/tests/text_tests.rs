use pastebin::clock::now_ts;
use pastebin::i18n::{contains_zh, cookie_lang, select_language};
use pastebin::models::Lang;
use pastebin::text::{ascii_lower, first_line, i64_to_string, replace_all, str_eq, trim,
    u64_to_string};
use pastebin::token::{generate_token, token_from_bytes};

#[test]
fn test_now_ts() {
    let t1 = now_ts();
    assert!(t1 > 0);
}

#[test]
fn test_generate_token_length() {
    assert_eq!(generate_token(8).len(), 8);
    assert_eq!(generate_token(16).len(), 16);
}

#[test]
fn test_generate_token_uniqueness() {
    let t1 = generate_token(10);
    let t2 = generate_token(10);
    assert_ne!(t1, t2);
}

#[test]
fn test_generate_token_alphabet() {
    let t = generate_token(64);
    assert!(t.chars().all(|c| c.is_ascii_alphanumeric()));
}

#[test]
fn test_token_from_bytes() {
    // each byte picks alphabet[byte % 62]
    assert_eq!(token_from_bytes(&vec![0, 9, 10, 36, 61, 62, 123]), "09aAZ0Z");
    assert_eq!(token_from_bytes(&vec![]), "");
}

#[test]
fn test_str_eq() {
    assert!(str_eq("", ""));
    assert!(str_eq("abc", "abc"));
    assert!(!str_eq("abc", "abd"));
    assert!(!str_eq("abc", "ab"));
}

#[test]
fn test_number_formatting() {
    assert_eq!(u64_to_string(0), "0");
    assert_eq!(u64_to_string(907), "907");
    assert_eq!(i64_to_string(-120), "-120");
    assert_eq!(i64_to_string(i64::MIN), "-9223372036854775808");
    assert_eq!(i64_to_string(i64::MAX), "9223372036854775807");
}

#[test]
fn test_replace_all() {
    assert_eq!(replace_all("a{}b{}c", "{}", "X"), "aXbXc");
    assert_eq!(replace_all("none", "{}", "X"), "none");
    assert_eq!(replace_all("{}{}", "{}", ""), "");
    assert_eq!(replace_all("aaa", "aa", "b"), "ba");
}

#[test]
fn test_trim_and_first_line() {
    assert_eq!(trim("  hi \t"), "hi");
    assert_eq!(trim("\r\n"), "");
    assert_eq!(first_line("one\ntwo"), "one");
    assert_eq!(first_line("one\r\ntwo"), "one");
    assert_eq!(first_line("single"), "single");
    assert_eq!(first_line(""), "");
}

#[test]
fn test_ascii_lower() {
    assert_eq!(ascii_lower("RuSt-3"), "rust-3");
    assert_eq!(ascii_lower("ZH"), "zh");
}

#[test]
fn test_cookie_lang() {
    assert_eq!(cookie_lang("lang=zh"), Some(Lang::Zh));
    assert_eq!(cookie_lang("theme=dark; lang=en"), Some(Lang::En));
    assert_eq!(cookie_lang("lang=fr; lang=en"), Some(Lang::En));
    assert_eq!(cookie_lang("theme=dark"), None);
    assert_eq!(cookie_lang(""), None);
}

#[test]
fn test_contains_zh() {
    assert!(contains_zh("zh-CN,zh;q=0.9"));
    assert!(contains_zh("ZH"));
    assert!(!contains_zh("en-US"));
    assert!(!contains_zh("z"));
}

#[test]
fn test_select_language() {
    let zh = "zh".to_string();
    let en = "en".to_string();
    let fr = "fr".to_string();
    let cookie_en = "lang=en".to_string();
    let accept_zh = "zh-CN".to_string();
    let accept_en = "en-US".to_string();

    // an explicit parameter wins and sets the cookie
    let (l, c) = select_language(Some(&zh), Some(&cookie_en), Some(&accept_en));
    assert_eq!(l, Lang::Zh);
    assert_eq!(c, Some("lang=zh; Path=/; Max-Age=31536000".to_string()));

    // an unknown parameter falls through to the cookie
    let (l, c) = select_language(Some(&fr), Some(&cookie_en), Some(&accept_zh));
    assert_eq!(l, Lang::En);
    assert_eq!(c, None);

    // no parameter, no cookie: the advertised preference decides
    let (l, c) = select_language(None, None, Some(&accept_en));
    assert_eq!(l, Lang::En);
    assert_eq!(c, None);

    // nothing at all: Chinese is the default
    let (l, _) = select_language(None, None, None);
    assert_eq!(l, Lang::Zh);

    // the explicit parameter can also pick English
    let (l, c) = select_language(Some(&en), None, None);
    assert_eq!(l, Lang::En);
    assert_eq!(c, Some("lang=en; Path=/; Max-Age=31536000".to_string()));
}
