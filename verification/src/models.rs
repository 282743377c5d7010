use vstd::prelude::*;

verus! {

// The data model: the paste entity in the shapes the store hands out, the
// configuration read at startup, and the user-interface text bundles.

/// A full paste row as `read` returns it.
#[derive(Clone)]
pub struct Paste {
    pub title: String,
    pub content: String,
    pub created_at: i64,
    pub expires_at: i64,
    pub language: String,
    pub views: i64,
    pub max_views: Option<i64>,
    pub is_public: bool,
    pub original_duration: i64,
}

/// The slice of a paste that the raw view needs.
#[derive(Clone)]
pub struct RawPaste {
    pub content: String,
    pub views: i64,
    pub max_views: Option<i64>,
}

/// A paste as the public discovery listing shows it.
#[derive(Clone)]
pub struct PublicPaste {
    pub token: String,
    pub title: String,
    pub content: String,
    pub created_at: i64,
    pub expires_at: i64,
    pub language: String,
    pub original_duration: i64,
}

/// Top-level application configuration.
#[derive(Clone)]
pub struct AppConfig {
    pub server: ServerConfig,
    pub paste: PasteConfig,
    pub i18n: I18nConfig,
}

/// Where the server listens.
#[derive(Clone)]
pub struct ServerConfig {
    pub host: String,
    pub port: u16,
}

/// Limits and option lists for the paste store.
#[derive(Clone)]
pub struct PasteConfig {
    pub db_path: String,
    pub default_expires_secs: i64,
    pub expires_options_secs: Vec<i64>,
    pub default_token_length: usize,
    pub token_lengths: Vec<usize>,
    pub max_content_length: usize,
    pub max_total_content_length: i64,
    pub max_pastes: i64,
}

/// Paths of the two translation files.
#[derive(Clone)]
pub struct I18nConfig {
    pub zh: String,
    pub en: String,
}

/// All user-interface text for one language.
pub struct Strings {
    pub lang: String,
    pub app_title: String,
    pub heading: String,
    pub slogan: String,
    pub label_title: String,
    pub placeholder_title: String,
    pub label_content: String,
    pub label_expires: String,
    pub label_token_length: String,
    pub label_language: String,
    pub button_create: String,
    pub result_placeholder: String,
    pub result_title: String,
    pub result_open: String,
    pub result_expires_label: String,
    pub detail_back: String,
    pub detail_expires_label: String,
    pub detail_copy: String,
    pub detail_copy_done: String,
    pub detail_raw: String,
    pub detail_new_paste: String,
    pub not_found: String,
    pub not_found_title: String,
    pub not_found_desc: String,
    pub content_too_long: String,
    pub aria_short_link: String,
    pub duration_expired: String,
    pub duration_seconds: String,
    pub duration_minutes: String,
    pub duration_hours: String,
    pub duration_days: String,
    pub expires_seconds_one: String,
    pub expires_seconds_many: String,
    pub expires_minutes_one: String,
    pub expires_minutes_many: String,
    pub expires_hours_one: String,
    pub expires_hours_many: String,
    pub expires_days_one: String,
    pub expires_days_many: String,
    pub token_length_label: String,
    pub language_auto: String,
    pub language_plaintext: String,
    pub language_rust: String,
    pub language_python: String,
    pub language_javascript: String,
    pub language_typescript: String,
    pub language_go: String,
    pub language_java: String,
    pub language_cpp: String,
    pub language_html: String,
    pub language_css: String,
    pub language_json: String,
    pub language_yaml: String,
    pub language_sql: String,
    pub language_bash: String,
    pub label_burn: String,
    pub label_burn_views: String,
    pub detail_remaining_views: String,
    pub detail_zero_views: String,
    pub stat_total_pastes: String,
    pub stat_faded: String,
    pub label_public: String,
    pub label_public_tooltip: String,
    pub explore_title: String,
    pub explore_hint: String,
    pub explore_nav_prev: String,
    pub explore_nav_next: String,
    pub explore_empty: String,
    pub explore_swipe_hint: String,
    pub explore_count: String,
    pub explore_go: String,
    pub life_remaining: String,
    pub life_vibrant: String,
    pub life_fading: String,
    pub life_dying: String,
    pub button_renew: String,
    pub renew_success: String,
    pub button_fork: String,
}

impl Clone for Strings {
    fn clone(&self) -> (r: Self)
        ensures
            r == *self,
    {
        Strings {
            lang: self.lang.clone(),
            app_title: self.app_title.clone(),
            heading: self.heading.clone(),
            slogan: self.slogan.clone(),
            label_title: self.label_title.clone(),
            placeholder_title: self.placeholder_title.clone(),
            label_content: self.label_content.clone(),
            label_expires: self.label_expires.clone(),
            label_token_length: self.label_token_length.clone(),
            label_language: self.label_language.clone(),
            button_create: self.button_create.clone(),
            result_placeholder: self.result_placeholder.clone(),
            result_title: self.result_title.clone(),
            result_open: self.result_open.clone(),
            result_expires_label: self.result_expires_label.clone(),
            detail_back: self.detail_back.clone(),
            detail_expires_label: self.detail_expires_label.clone(),
            detail_copy: self.detail_copy.clone(),
            detail_copy_done: self.detail_copy_done.clone(),
            detail_raw: self.detail_raw.clone(),
            detail_new_paste: self.detail_new_paste.clone(),
            not_found: self.not_found.clone(),
            not_found_title: self.not_found_title.clone(),
            not_found_desc: self.not_found_desc.clone(),
            content_too_long: self.content_too_long.clone(),
            aria_short_link: self.aria_short_link.clone(),
            duration_expired: self.duration_expired.clone(),
            duration_seconds: self.duration_seconds.clone(),
            duration_minutes: self.duration_minutes.clone(),
            duration_hours: self.duration_hours.clone(),
            duration_days: self.duration_days.clone(),
            expires_seconds_one: self.expires_seconds_one.clone(),
            expires_seconds_many: self.expires_seconds_many.clone(),
            expires_minutes_one: self.expires_minutes_one.clone(),
            expires_minutes_many: self.expires_minutes_many.clone(),
            expires_hours_one: self.expires_hours_one.clone(),
            expires_hours_many: self.expires_hours_many.clone(),
            expires_days_one: self.expires_days_one.clone(),
            expires_days_many: self.expires_days_many.clone(),
            token_length_label: self.token_length_label.clone(),
            language_auto: self.language_auto.clone(),
            language_plaintext: self.language_plaintext.clone(),
            language_rust: self.language_rust.clone(),
            language_python: self.language_python.clone(),
            language_javascript: self.language_javascript.clone(),
            language_typescript: self.language_typescript.clone(),
            language_go: self.language_go.clone(),
            language_java: self.language_java.clone(),
            language_cpp: self.language_cpp.clone(),
            language_html: self.language_html.clone(),
            language_css: self.language_css.clone(),
            language_json: self.language_json.clone(),
            language_yaml: self.language_yaml.clone(),
            language_sql: self.language_sql.clone(),
            language_bash: self.language_bash.clone(),
            label_burn: self.label_burn.clone(),
            label_burn_views: self.label_burn_views.clone(),
            detail_remaining_views: self.detail_remaining_views.clone(),
            detail_zero_views: self.detail_zero_views.clone(),
            stat_total_pastes: self.stat_total_pastes.clone(),
            stat_faded: self.stat_faded.clone(),
            label_public: self.label_public.clone(),
            label_public_tooltip: self.label_public_tooltip.clone(),
            explore_title: self.explore_title.clone(),
            explore_hint: self.explore_hint.clone(),
            explore_nav_prev: self.explore_nav_prev.clone(),
            explore_nav_next: self.explore_nav_next.clone(),
            explore_empty: self.explore_empty.clone(),
            explore_swipe_hint: self.explore_swipe_hint.clone(),
            explore_count: self.explore_count.clone(),
            explore_go: self.explore_go.clone(),
            life_remaining: self.life_remaining.clone(),
            life_vibrant: self.life_vibrant.clone(),
            life_fading: self.life_fading.clone(),
            life_dying: self.life_dying.clone(),
            button_renew: self.button_renew.clone(),
            renew_success: self.renew_success.clone(),
            button_fork: self.button_fork.clone(),
        }
    }
}

/// The two translations the application ships.
#[derive(Clone)]
pub struct I18n {
    pub zh: Strings,
    pub en: Strings,
}

/// The user-interface language of one request.
#[derive(Clone, Copy, Debug, PartialEq, Eq, Structural)]
pub enum Lang {
    Zh,
    En,
}

impl I18n {
    /// The text bundle for the given language.
    pub fn strings(&self, lang: Lang) -> (r: Strings)
        ensures
            r == if lang == Lang::Zh { self.zh } else { self.en },
    {
        match lang {
            Lang::Zh => self.zh.clone(),
            Lang::En => self.en.clone(),
        }
    }
}

/// Data for the landing page.
pub struct IndexTemplate {
    pub strings: Strings,
    pub expires_options: Vec<ExpiresOption>,
    pub token_length_options: Vec<TokenLengthOption>,
    pub language_options: Vec<LanguageOption>,
    pub total_pastes: String,
    pub public_count: i64,
    pub fork_title: Option<String>,
    pub fork_content: Option<String>,
    pub fork_token: Option<String>,
}

/// Query parameters of the landing page.
pub struct IndexQuery {
    pub lang: Option<String>,
    pub fork: Option<String>,
}

/// Data for the paste detail page.
pub struct DetailTemplate {
    pub item: Paste,
    pub strings: Strings,
    pub token: String,
    pub language_label: String,
    pub remaining_views: Option<String>,
}

/// Data for the fragment shown after creating a paste.
pub struct ResultTemplate {
    pub path: String,
    pub expires_in: String,
    pub strings: Strings,
    pub language_label: String,
    pub remaining_views: Option<String>,
    pub total_pastes: String,
}

/// Data for the not-found page.
pub struct NotFoundTemplate {
    pub strings: Strings,
    pub faded_count: String,
}

/// Data for the discovery page.
pub struct ExploreTemplate {
    pub strings: Strings,
    pub pastes: Vec<PublicPaste>,
    pub total: i64,
    pub now_ts: i64,
    pub max_expires_secs: i64,
}

/// One choice in the expiry drop-down.
#[derive(Clone)]
pub struct ExpiresOption {
    pub value: i64,
    pub label: String,
    pub selected: bool,
}

/// One choice in the token-length drop-down.
#[derive(Clone)]
pub struct TokenLengthOption {
    pub value: usize,
    pub label: String,
    pub selected: bool,
}

/// One choice in the language drop-down.
#[derive(Clone)]
pub struct LanguageOption {
    pub value: String,
    pub label: String,
    pub selected: bool,
}

/// Query parameters of the discovery API.
pub struct ExploreQuery {
    pub offset: Option<i64>,
}

/// The fields of the paste-creation form.
pub struct PasteForm {
    pub title: Option<String>,
    pub content: String,
    pub expires_in: Option<i64>,
    pub token_length: Option<usize>,
    pub language: Option<String>,
    pub max_views: Option<String>,
    pub is_public: Option<String>,
}

} // verus!
