use vstd::prelude::*;
use crate::format::{fill_count, format_expires_label, spec_fill_count, spec_format_expires_label};
use crate::models::{ExpiresOption, LanguageOption, PasteConfig, Strings, TokenLengthOption};
use crate::text::{replace_all, spec_nat_dec, spec_replace, u64_to_string};

verus! {

// The drop-down choices the creation form offers, derived from the
// configuration and the translated labels.

/// The expiry choices: one per configured span, labelled, with the
/// configured default pre-selected.
pub fn build_expires_options(config: &PasteConfig, strings: &Strings) -> (r: Vec<ExpiresOption>)
    ensures
        r@.len() == config.expires_options_secs@.len(),
        forall|i: int|
            0 <= i < r@.len() ==> {
                let v = config.expires_options_secs@[i];
                &&& (#[trigger] r@[i]).value == v
                &&& r@[i].label@ == spec_format_expires_label(v, *strings)
                &&& r@[i].selected == (v == config.default_expires_secs)
            },
{
    let n = config.expires_options_secs.len();
    let mut out: Vec<ExpiresOption> = Vec::new();
    let mut i: usize = 0;
    while i < n
        invariant
            n == config.expires_options_secs@.len(),
            i <= n,
            out@.len() == i,
            forall|j: int|
                0 <= j < i ==> {
                    let v = config.expires_options_secs@[j];
                    &&& (#[trigger] out@[j]).value == v
                    &&& out@[j].label@ == spec_format_expires_label(v, *strings)
                    &&& out@[j].selected == (v == config.default_expires_secs)
                },
        decreases n - i,
    {
        let v = config.expires_options_secs[i];
        out.push(ExpiresOption {
            value: v,
            label: format_expires_label(v, strings),
            selected: v == config.default_expires_secs,
        });
        i = i + 1;
    }
    out
}

/// The token-length choices, labelled, with the configured default
/// pre-selected.
pub fn build_token_length_options(config: &PasteConfig, strings: &Strings) -> (r: Vec<
    TokenLengthOption,
>)
    ensures
        r@.len() == config.token_lengths@.len(),
        forall|i: int|
            0 <= i < r@.len() ==> {
                let v = config.token_lengths@[i];
                &&& (#[trigger] r@[i]).value == v
                &&& r@[i].label@ == spec_replace(strings.token_length_label@, "{}"@, spec_nat_dec(v as int))
                &&& r@[i].selected == (v == config.default_token_length)
            },
{
    let n = config.token_lengths.len();
    let mut out: Vec<TokenLengthOption> = Vec::new();
    let mut i: usize = 0;
    while i < n
        invariant
            n == config.token_lengths@.len(),
            i <= n,
            out@.len() == i,
            forall|j: int|
                0 <= j < i ==> {
                    let v = config.token_lengths@[j];
                    &&& (#[trigger] out@[j]).value == v
                    &&& out@[j].label@ == spec_replace(strings.token_length_label@, "{}"@, spec_nat_dec(v as int))
                    &&& out@[j].selected == (v == config.default_token_length)
                },
        decreases n - i,
    {
        let v = config.token_lengths[i];
        proof {
            reveal_strlit("{}");
        }
        let num = u64_to_string(v as u64);
        let label = replace_all(strings.token_length_label.as_str(), "{}", num.as_str());
        out.push(TokenLengthOption { value: v, label, selected: v == config.default_token_length });
        i = i + 1;
    }
    out
}

/// The fixed language choices, in display order, with the sentinel
/// pre-selected.
pub fn build_language_options(strings: &Strings) -> (r: Vec<LanguageOption>)
    ensures
        r@.len() == 15,
        r@[0].value@ == "auto"@ && r@[0].label == strings.language_auto && r@[0].selected == true,
        r@[1].value@ == "plaintext"@ && r@[1].label == strings.language_plaintext && r@[1].selected == false,
        r@[2].value@ == "rust"@ && r@[2].label == strings.language_rust && r@[2].selected == false,
        r@[3].value@ == "python"@ && r@[3].label == strings.language_python && r@[3].selected == false,
        r@[4].value@ == "javascript"@ && r@[4].label == strings.language_javascript && r@[4].selected == false,
        r@[5].value@ == "typescript"@ && r@[5].label == strings.language_typescript && r@[5].selected == false,
        r@[6].value@ == "go"@ && r@[6].label == strings.language_go && r@[6].selected == false,
        r@[7].value@ == "java"@ && r@[7].label == strings.language_java && r@[7].selected == false,
        r@[8].value@ == "cpp"@ && r@[8].label == strings.language_cpp && r@[8].selected == false,
        r@[9].value@ == "html"@ && r@[9].label == strings.language_html && r@[9].selected == false,
        r@[10].value@ == "css"@ && r@[10].label == strings.language_css && r@[10].selected == false,
        r@[11].value@ == "json"@ && r@[11].label == strings.language_json && r@[11].selected == false,
        r@[12].value@ == "yaml"@ && r@[12].label == strings.language_yaml && r@[12].selected == false,
        r@[13].value@ == "sql"@ && r@[13].label == strings.language_sql && r@[13].selected == false,
        r@[14].value@ == "bash"@ && r@[14].label == strings.language_bash && r@[14].selected == false,
{
    let mut out: Vec<LanguageOption> = Vec::new();
    out.push(LanguageOption {
        value: String::from_str("auto"),
        label: strings.language_auto.clone(),
        selected: true,
    });
    out.push(LanguageOption {
        value: String::from_str("plaintext"),
        label: strings.language_plaintext.clone(),
        selected: false,
    });
    out.push(LanguageOption {
        value: String::from_str("rust"),
        label: strings.language_rust.clone(),
        selected: false,
    });
    out.push(LanguageOption {
        value: String::from_str("python"),
        label: strings.language_python.clone(),
        selected: false,
    });
    out.push(LanguageOption {
        value: String::from_str("javascript"),
        label: strings.language_javascript.clone(),
        selected: false,
    });
    out.push(LanguageOption {
        value: String::from_str("typescript"),
        label: strings.language_typescript.clone(),
        selected: false,
    });
    out.push(LanguageOption {
        value: String::from_str("go"),
        label: strings.language_go.clone(),
        selected: false,
    });
    out.push(LanguageOption {
        value: String::from_str("java"),
        label: strings.language_java.clone(),
        selected: false,
    });
    out.push(LanguageOption {
        value: String::from_str("cpp"),
        label: strings.language_cpp.clone(),
        selected: false,
    });
    out.push(LanguageOption {
        value: String::from_str("html"),
        label: strings.language_html.clone(),
        selected: false,
    });
    out.push(LanguageOption {
        value: String::from_str("css"),
        label: strings.language_css.clone(),
        selected: false,
    });
    out.push(LanguageOption {
        value: String::from_str("json"),
        label: strings.language_json.clone(),
        selected: false,
    });
    out.push(LanguageOption {
        value: String::from_str("yaml"),
        label: strings.language_yaml.clone(),
        selected: false,
    });
    out.push(LanguageOption {
        value: String::from_str("sql"),
        label: strings.language_sql.clone(),
        selected: false,
    });
    out.push(LanguageOption {
        value: String::from_str("bash"),
        label: strings.language_bash.clone(),
        selected: false,
    });
    out
}

} // verus!
