use pastebin::engine;
use pastebin::models::{PasteConfig, PasteForm};
use pastebin::store::{upgrade_legacy_row, LegacyRow, PasteStore, RenewError, StoreError};

fn insert(
    store: &mut PasteStore,
    title: &str,
    content: &str,
    expires_at: i64,
    original_duration: i64,
    max_views: Option<i64>,
    is_public: bool,
    created_at: i64,
) -> String {
    store
        .insert_paste(
            title.to_string(),
            content.to_string(),
            expires_at,
            original_duration,
            8,
            "auto".to_string(),
            max_views,
            is_public,
            created_at,
        )
        .unwrap()
}

fn candidates(names: &[&str]) -> Vec<String> {
    names.iter().map(|s| s.to_string()).collect()
}

#[test]
fn test_insert_and_retrieve_paste() {
    let mut store = PasteStore::new();
    let token = store
        .insert_paste(
            "Test Title".to_string(),
            "Test Content".to_string(),
            3600,
            3600,
            8,
            "rust".to_string(),
            None,
            true,
            0,
        )
        .unwrap();
    assert_eq!(token.len(), 8);
    let paste = store.read_paste(&token, 0).unwrap();
    assert_eq!(paste.title, "Test Title");
    assert_eq!(paste.content, "Test Content");
    assert_eq!(paste.language, "rust");
    assert!(paste.is_public);
}

#[test]
fn test_cleanup_expired() {
    let mut store = PasteStore::new();
    let old_token = insert(&mut store, "Old", "Old content", 100, 3600, None, false, 0);
    let new_token = insert(&mut store, "New", "New content", 10_000, 3600, None, false, 0);
    store.cleanup_expired(100);
    assert!(!store.contains_token(&old_token));
    assert!(store.contains_token(&new_token));
    assert_eq!(store.count(), 1);
}

#[test]
fn test_expired_record_unreachable_through_read() {
    let mut store = PasteStore::new();
    let token = insert(&mut store, "T", "C", 100, 100, None, false, 0);
    // still alive strictly before the expiry instant
    assert!(store.read_paste(&token, 99).is_some());
    // at or past the expiry instant the record is unreachable
    assert!(store.read_paste(&token, 100).is_none());
    assert!(engine::view_paste(&mut store, 100, 100, &token).is_none());
    assert!(!store.contains_token(&token));
}

#[test]
fn test_insert_with_candidates_retries_collisions() {
    let mut store = PasteStore::new();
    let taken = store
        .insert_paste_with_candidates(
            &candidates(&["aa", "bb", "cc", "dd", "ee"]),
            "first".to_string(),
            "x".to_string(),
            "auto".to_string(),
            0,
            1000,
            1000,
            None,
            false,
        )
        .unwrap();
    assert_eq!(taken, "aa");
    // the first two candidates collide; the third is taken
    let second = store
        .insert_paste_with_candidates(
            &candidates(&["aa", "aa", "zz", "ww", "vv"]),
            "second".to_string(),
            "y".to_string(),
            "auto".to_string(),
            0,
            1000,
            1000,
            None,
            false,
        )
        .unwrap();
    assert_eq!(second, "zz");
}

#[test]
fn test_insert_collision_exhausted_after_five() {
    let mut store = PasteStore::new();
    for t in ["t1", "t2", "t3", "t4", "t5"] {
        store
            .insert_paste_with_candidates(
                &candidates(&[t, t, t, t, t]),
                "x".to_string(),
                "x".to_string(),
                "auto".to_string(),
                0,
                1000,
                1000,
                None,
                false,
            )
            .unwrap();
    }
    let before = store.count();
    let result = store.insert_paste_with_candidates(
        &candidates(&["t1", "t2", "t3", "t4", "t5"]),
        "x".to_string(),
        "x".to_string(),
        "auto".to_string(),
        0,
        1000,
        1000,
        None,
        false,
    );
    assert_eq!(result, Err(StoreError::CollisionExhausted));
    assert_eq!(store.count(), before);
}

#[test]
fn test_tokens_distinct_across_inserts() {
    let mut store = PasteStore::new();
    let mut tokens: Vec<String> = Vec::new();
    for i in 0..20 {
        let t = insert(&mut store, "t", "c", 10_000 + i, 10_000, None, false, 0);
        tokens.push(t);
    }
    for i in 0..tokens.len() {
        for j in 0..tokens.len() {
            if i != j {
                assert_ne!(tokens[i], tokens[j]);
            }
        }
    }
}

#[test]
fn test_row_capacity_evicts_soonest_expiring() {
    let mut store = PasteStore::new();
    // a expires soonest among the three
    let a = insert(&mut store, "a", "aa", 500, 500, None, false, 0);
    let b = insert(&mut store, "b", "bb", 900, 900, None, false, 0);
    let c = insert(&mut store, "c", "cc", 700, 700, None, false, 0);
    store.enforce_size_limit(3, 1);
    assert_eq!(store.count(), 2);
    assert!(!store.contains_token(&a));
    assert!(store.contains_token(&b));
    assert!(store.contains_token(&c));
    let d = insert(&mut store, "d", "dd", 800, 800, None, false, 0);
    assert!(store.contains_token(&d));
    assert_eq!(store.count(), 3);
}

#[test]
fn test_byte_budget_evicts_until_reserve_fits() {
    let mut store = PasteStore::new();
    // three rows of 30 characters each: 90 in all, soonest-expiring first
    let a = insert(&mut store, "a", &"x".repeat(30), 500, 500, None, false, 0);
    let b = insert(&mut store, "b", &"y".repeat(30), 900, 900, None, false, 0);
    let c = insert(&mut store, "c", &"z".repeat(30), 700, 700, None, false, 0);
    assert_eq!(store.total_content_chars(), 90);
    // reserving 30 of a 100-character budget leaves 70: one row must go
    store.enforce_total_content_length(100, 30);
    assert_eq!(store.total_content_chars(), 60);
    assert!(!store.contains_token(&a));
    assert!(store.contains_token(&b));
    assert!(store.contains_token(&c));
}

#[test]
fn test_byte_budget_noop_when_within_allowance() {
    let mut store = PasteStore::new();
    insert(&mut store, "a", "0123456789", 500, 500, None, false, 0);
    store.enforce_total_content_length(100, 30);
    assert_eq!(store.count(), 1);
    assert_eq!(store.total_content_chars(), 10);
}

#[test]
fn test_burn_on_read_three_views() {
    let mut store = PasteStore::new();
    let token = insert(&mut store, "b", "burning", 10_000, 10_000, Some(3), false, 0);
    for _ in 0..3 {
        let p = store.read_paste(&token, 5).expect("guaranteed read");
        assert_eq!(p.content, "burning");
    }
    assert!(store.read_paste(&token, 5).is_none());
    assert!(!store.contains_token(&token));
}

#[test]
fn test_burn_on_read_raw_counts_too() {
    let mut store = PasteStore::new();
    let token = insert(&mut store, "b", "raw", 10_000, 10_000, Some(2), false, 0);
    let first = store.read_paste_raw(&token, 5).unwrap();
    assert_eq!(first.content, "raw");
    assert_eq!(first.views, 0);
    let second = store.read_paste_raw(&token, 5).unwrap();
    assert_eq!(second.views, 1);
    assert!(store.read_paste_raw(&token, 5).is_none());
}

#[test]
fn test_public_and_burn_limit_exclusive() {
    let mut store = PasteStore::new();
    let token = insert(&mut store, "p", "c", 10_000, 10_000, Some(5), true, 0);
    let p = store.read_paste(&token, 5).unwrap();
    // the store forces discoverability off on a burn-limited record
    assert!(!p.is_public);
    assert_eq!(p.max_views, Some(5));
}

#[test]
fn test_renewal_threshold() {
    let mut store = PasteStore::new();
    // created at 0 with a 1000-second span
    let token = insert(&mut store, "r", "c", 1000, 1000, None, true, 0);
    // remaining 600 >= 500: rejected, expiry unchanged
    assert_eq!(store.renew_paste(&token, 400), Err(RenewError::Rejected));
    let p = store.read_paste(&token, 400).unwrap();
    assert_eq!(p.expires_at, 1000);
    // remaining 400 < 500: renewed to a full span from now
    assert_eq!(store.renew_paste(&token, 600), Ok(1600));
    let p = store.read_paste(&token, 600).unwrap();
    assert_eq!(p.expires_at, 1600);
}

#[test]
fn test_renewal_ineligible_records() {
    let mut store = PasteStore::new();
    let private = insert(&mut store, "r", "c", 1000, 1000, None, false, 0);
    assert_eq!(store.renew_paste(&private, 900), Err(RenewError::Rejected));
    let burn = insert(&mut store, "r", "c", 1000, 1000, Some(3), true, 0);
    assert_eq!(store.renew_paste(&burn, 900), Err(RenewError::Rejected));
    assert_eq!(
        store.renew_paste(&"missing".to_string(), 900),
        Err(RenewError::NotFound)
    );
}

#[test]
fn test_high_water_and_faded_counts() {
    let mut store = PasteStore::new();
    assert_eq!(store.high_water_id(), 0);
    let a = insert(&mut store, "a", "c", 100, 100, None, false, 0);
    let _b = insert(&mut store, "b", "c", 200, 200, None, false, 0);
    assert_eq!(store.high_water_id(), 2);
    assert_eq!(store.faded_count(), 0);
    store.cleanup_expired(100);
    assert!(!store.contains_token(&a));
    // the high-water id still counts the faded record
    assert_eq!(store.high_water_id(), 2);
    assert_eq!(store.faded_count(), 1);
}

#[test]
fn test_list_public_order_and_window() {
    let mut store = PasteStore::new();
    insert(&mut store, "old", "c1", 10_000, 10_000, None, true, 100);
    insert(&mut store, "hidden", "c2", 10_000, 10_000, None, false, 200);
    insert(&mut store, "newest", "c3", 10_000, 10_000, None, true, 300);
    insert(&mut store, "burning", "c4", 10_000, 10_000, Some(2), true, 400);
    insert(&mut store, "gone", "c5", 50, 50, None, true, 500);
    let all = store.list_public(100, 0, 1000);
    assert_eq!(all.len(), 2);
    assert_eq!(all[0].title, "newest");
    assert_eq!(all[1].title, "old");
    let page = store.list_public(1, 1, 1000);
    assert_eq!(page.len(), 1);
    assert_eq!(page[0].title, "old");
    let empty = store.list_public(1, 2, 1000);
    assert!(empty.is_empty());
}

#[test]
fn test_engine_api_explore() {
    let mut store = PasteStore::new();
    insert(&mut store, "first", "c", 10_000, 10_000, None, true, 100);
    insert(&mut store, "second", "c", 10_000, 10_000, None, true, 200);
    let (item, total) = engine::api_explore(&mut store, 1000, 0);
    assert_eq!(total, 2);
    assert_eq!(item.unwrap().title, "second");
    let (item, _) = engine::api_explore(&mut store, 1000, 1);
    assert_eq!(item.unwrap().title, "first");
    let (item, _) = engine::api_explore(&mut store, 1000, 2);
    assert!(item.is_none());
}

fn test_config() -> PasteConfig {
    PasteConfig {
        db_path: "pastes.db".to_string(),
        default_expires_secs: 3600,
        expires_options_secs: vec![60, 3600, 86400],
        default_token_length: 8,
        token_lengths: vec![4, 8, 16],
        max_content_length: 100,
        max_total_content_length: 1000,
        max_pastes: 10,
    }
}

fn empty_form(content: &str) -> PasteForm {
    PasteForm {
        title: None,
        content: content.to_string(),
        expires_in: None,
        token_length: None,
        language: None,
        max_views: None,
        is_public: None,
    }
}

#[test]
fn test_engine_create_and_view() {
    let mut store = PasteStore::new();
    let config = test_config();
    let mut form = empty_form("hello world");
    form.title = Some("Greeting".to_string());
    form.expires_in = Some(60);
    form.is_public = Some("on".to_string());
    let created = engine::create_paste(&mut store, &config, 1000, form).unwrap();
    assert_eq!(created.expires_in, 60);
    assert_eq!(created.expires_at, 1060);
    assert_eq!(created.language, "auto");
    assert_eq!(created.max_views, None);
    let p = engine::view_paste(&mut store, config.max_pastes, 1000, &created.token).unwrap();
    assert_eq!(p.title, "Greeting");
    assert_eq!(p.content, "hello world");
    assert!(p.is_public);
    assert_eq!(p.created_at, 1000);
    assert_eq!(p.original_duration, 60);
}

#[test]
fn test_engine_create_rejects_long_content() {
    let mut store = PasteStore::new();
    let config = test_config();
    let form = empty_form(&"x".repeat(101));
    let r = engine::create_paste(&mut store, &config, 1000, form);
    assert_eq!(r.unwrap_err(), engine::CreateError::ContentTooLong);
    assert_eq!(store.count(), 0);
}

#[test]
fn test_engine_create_normalizes_choices() {
    let mut store = PasteStore::new();
    let config = test_config();
    let mut form = empty_form("content");
    form.expires_in = Some(1234); // not offered: falls back to the default
    form.token_length = Some(5); // not offered: falls back to the default
    form.language = Some("Rust".to_string());
    form.max_views = Some("2".to_string());
    form.is_public = Some("on".to_string()); // burn-limited: forced off
    let created = engine::create_paste(&mut store, &config, 0, form).unwrap();
    assert_eq!(created.expires_in, 3600);
    assert_eq!(created.token.len(), 8);
    assert_eq!(created.language, "rust");
    assert_eq!(created.max_views, Some(2));
    let p = engine::view_paste(&mut store, config.max_pastes, 0, &created.token).unwrap();
    assert!(!p.is_public);
}

#[test]
fn test_engine_index_stats() {
    let mut store = PasteStore::new();
    insert(&mut store, "pub", "c", 10_000, 10_000, None, true, 0);
    insert(&mut store, "priv", "c", 10_000, 10_000, None, false, 0);
    insert(&mut store, "dead", "c", 50, 50, None, true, 0);
    let stats = engine::index(&mut store, 10, 1000);
    assert_eq!(stats.total_pastes_ever, 3);
    assert_eq!(stats.public_count, 1);
    assert_eq!(store.count(), 2);
}

#[test]
fn test_upgrade_legacy_row_backfills_defaults() {
    let row = LegacyRow {
        id: 7,
        token: "abc".to_string(),
        title: "t".to_string(),
        content: "c".to_string(),
        created_at: 100,
        expires_at: None,
        language: None,
        views: None,
        max_views: None,
        is_public: None,
        original_duration: None,
    };
    let rec = upgrade_legacy_row(row, 900);
    assert_eq!(rec.expires_at, 900); // a row without an expiry expires at once
    assert_eq!(rec.language, "auto");
    assert_eq!(rec.views, 0);
    assert!(!rec.is_public);
    assert_eq!(rec.original_duration, 800); // reconstructed from expiry and creation

    let row = LegacyRow {
        id: 8,
        token: "def".to_string(),
        title: "t".to_string(),
        content: "c".to_string(),
        created_at: 500,
        expires_at: Some(400),
        language: Some("rust".to_string()),
        views: Some(2),
        max_views: Some(3),
        is_public: Some(true),
        original_duration: None,
    };
    let rec = upgrade_legacy_row(row, 900);
    assert_eq!(rec.expires_at, 400);
    assert_eq!(rec.language, "rust");
    assert_eq!(rec.views, 2);
    assert!(!rec.is_public); // burn-limited: discoverability forced off
    assert_eq!(rec.original_duration, 0); // a negative span is treated as zero
}

#[test]
fn test_engine_create_evicts_when_full() {
    let mut store = PasteStore::new();
    let mut config = test_config();
    config.max_pastes = 3;
    let mut tokens: Vec<String> = Vec::new();
    // a expires after 60 seconds: the soonest of the first three
    for span in [60i64, 86400, 3600] {
        let mut form = empty_form("row");
        form.expires_in = Some(span);
        tokens.push(engine::create_paste(&mut store, &config, 0, form).unwrap().token);
    }
    assert_eq!(store.count(), 3);
    let mut form = empty_form("fourth");
    form.expires_in = Some(3600);
    let d = engine::create_paste(&mut store, &config, 0, form).unwrap();
    // exactly one row was evicted before the fourth was admitted
    assert_eq!(store.count(), 3);
    assert!(!store.contains_token(&tokens[0]));
    assert!(store.contains_token(&tokens[1]));
    assert!(store.contains_token(&tokens[2]));
    assert!(store.contains_token(&d.token));
}

#[test]
fn test_engine_create_rejects_content_over_total_budget() {
    let mut store = PasteStore::new();
    let mut config = test_config();
    config.max_total_content_length = 50;
    let form = empty_form(&"x".repeat(60));
    let r = engine::create_paste(&mut store, &config, 0, form);
    assert_eq!(r.unwrap_err(), engine::CreateError::ContentOverTotalBudget);
    assert_eq!(store.count(), 0);
}
