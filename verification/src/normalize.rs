use vstd::prelude::*;
use crate::models::PasteConfig;
use crate::text::{ascii_lower, first_line, spec_ascii_lower, spec_first_line, spec_trim,
    strip_trailing_cr, str_eq, trim};

verus! {

// Normalization of the raw form input: every out-of-allow-list choice is
// coerced to a configured default, never rejected.

/// Whether `v` occurs in `s`.
pub open spec fn seq_contains_i64(s: Seq<i64>, v: i64) -> bool {
    exists|i: int| 0 <= i < s.len() && s[i] == v
}

/// Whether `v` occurs in `s`.
pub open spec fn seq_contains_usize(s: Seq<usize>, v: usize) -> bool {
    exists|i: int| 0 <= i < s.len() && s[i] == v
}

fn contains_i64(s: &Vec<i64>, v: i64) -> (r: bool)
    ensures
        r == seq_contains_i64(s@, v),
{
    let mut i: usize = 0;
    while i < s.len()
        invariant
            i <= s@.len(),
            forall|j: int| 0 <= j < i ==> s@[j] != v,
        decreases s@.len() - i,
    {
        if s[i] == v {
            return true;
        }
        i = i + 1;
    }
    false
}

fn contains_usize(s: &Vec<usize>, v: usize) -> (r: bool)
    ensures
        r == seq_contains_usize(s@, v),
{
    let mut i: usize = 0;
    while i < s.len()
        invariant
            i <= s@.len(),
            forall|j: int| 0 <= j < i ==> s@[j] != v,
        decreases s@.len() - i,
    {
        if s[i] == v {
            return true;
        }
        i = i + 1;
    }
    false
}

/// The requested expiry span when the configuration offers it, else the
/// configured default.
pub open spec fn spec_normalize_expires_in(expires_in: Option<i64>, config: PasteConfig) -> i64 {
    let value = match expires_in {
        Some(v) => v,
        None => config.default_expires_secs,
    };
    if seq_contains_i64(config.expires_options_secs@, value) {
        value
    } else {
        config.default_expires_secs
    }
}

/// Coerce the requested expiry span to one the configuration offers.
pub fn normalize_expires_in(expires_in: Option<i64>, config: &PasteConfig) -> (r: i64)
    ensures
        r == spec_normalize_expires_in(expires_in, *config),
{
    let value = match expires_in {
        Some(v) => v,
        None => config.default_expires_secs,
    };
    if contains_i64(&config.expires_options_secs, value) {
        value
    } else {
        config.default_expires_secs
    }
}

/// The requested token length when the configuration offers it, else the
/// configured default.
pub open spec fn spec_normalize_token_length(token_length: Option<usize>, config: PasteConfig) -> usize {
    let value = match token_length {
        Some(v) => v,
        None => config.default_token_length,
    };
    if seq_contains_usize(config.token_lengths@, value) {
        value
    } else {
        config.default_token_length
    }
}

/// Coerce the requested token length to one the configuration offers.
pub fn normalize_token_length(token_length: Option<usize>, config: &PasteConfig) -> (r: usize)
    ensures
        r == spec_normalize_token_length(token_length, *config),
{
    let value = match token_length {
        Some(v) => v,
        None => config.default_token_length,
    };
    if contains_usize(&config.token_lengths, value) {
        value
    } else {
        config.default_token_length
    }
}

/// The fixed allow-list of syntax-highlighting languages.
pub open spec fn spec_is_allowed_language(v: Seq<char>) -> bool {
    ||| v == "auto"@
    ||| v == "plaintext"@
    ||| v == "rust"@
    ||| v == "python"@
    ||| v == "javascript"@
    ||| v == "typescript"@
    ||| v == "go"@
    ||| v == "java"@
    ||| v == "cpp"@
    ||| v == "html"@
    ||| v == "css"@
    ||| v == "json"@
    ||| v == "yaml"@
    ||| v == "sql"@
    ||| v == "bash"@
}

/// Whether `value` is in the language allow-list.
pub fn is_allowed_language(value: &str) -> (r: bool)
    ensures
        r == spec_is_allowed_language(value@),
{
    str_eq(value, "auto") || str_eq(value, "plaintext") || str_eq(value, "rust") || str_eq(
        value,
        "python",
    ) || str_eq(value, "javascript") || str_eq(value, "typescript") || str_eq(value, "go")
        || str_eq(value, "java") || str_eq(value, "cpp") || str_eq(value, "html") || str_eq(
        value,
        "css",
    ) || str_eq(value, "json") || str_eq(value, "yaml") || str_eq(value, "sql") || str_eq(
        value,
        "bash",
    )
}

/// The language choice lower-cased, kept when on the allow-list and
/// otherwise replaced by the sentinel `auto`.
pub open spec fn spec_normalize_language(language: Option<Seq<char>>) -> Seq<char> {
    let value = match language {
        Some(l) => spec_ascii_lower(l),
        None => "auto"@,
    };
    if spec_is_allowed_language(value) {
        value
    } else {
        "auto"@
    }
}

/// Coerce the language choice to the allow-list.
pub fn normalize_language(language: Option<String>) -> (r: String)
    ensures
        r@ == spec_normalize_language(match language {
            Some(l) => Some(l@),
            None => None,
        }),
{
    let value = match language {
        Some(l) => ascii_lower(l.as_str()),
        None => String::from_str("auto"),
    };
    if is_allowed_language(value.as_str()) {
        value
    } else {
        proof {
            if language is None {
                assert(spec_is_allowed_language("auto"@));
            }
        }
        String::from_str("auto")
    }
}

/// The title trimmed; when blank, the trimmed first line of the content
/// capped at eighty characters; when that is blank too, `Untitled`.
pub open spec fn spec_normalize_title(title: Option<Seq<char>>, content: Seq<char>) -> Seq<char> {
    let trimmed = spec_trim(match title {
        Some(t) => t,
        None => Seq::empty(),
    });
    if trimmed.len() > 0 {
        trimmed
    } else {
        let line = spec_trim(strip_trailing_cr(spec_first_line(content)));
        if line.len() == 0 {
            "Untitled"@
        } else if line.len() > 80 {
            line.take(80)
        } else {
            line
        }
    }
}

/// Derive a presentable title from the request.
pub fn normalize_title(title: Option<String>, content: &str) -> (r: String)
    ensures
        r@ == spec_normalize_title(
            match title {
                Some(t) => Some(t@),
                None => None,
            },
            content@,
        ),
{
    let trimmed = match title {
        Some(t) => trim(t.as_str()),
        None => String::new(),
    };
    proof {
        assert(spec_trim(Seq::<char>::empty()) =~= Seq::<char>::empty());
    }
    if trimmed.unicode_len() > 0 {
        trimmed
    } else {
        let line_raw = first_line(content);
        let line = trim(line_raw.as_str());
        let len = line.unicode_len();
        if len == 0 {
            String::from_str("Untitled")
        } else if len > 80 {
            let capped = line.as_str().substring_char(0, 80);
            String::from_str(capped)
        } else {
            line
        }
    }
}

/// Whether `c` is a decimal digit.
pub open spec fn is_digit(c: char) -> bool {
    48 <= c as u32 <= 57
}

/// The numeric value of a digit character.
pub open spec fn digit_val(c: char) -> int {
    c as u32 - 48
}

/// The value of a digit string, most significant digit first.
pub open spec fn digits_val(s: Seq<char>) -> int
    decreases s.len(),
{
    if s.len() == 0 {
        0
    } else {
        digits_val(s.drop_last()) * 10 + digit_val(s.last())
    }
}

/// Whether `s` is a non-empty string of decimal digits.
pub open spec fn all_digits(s: Seq<char>) -> bool {
    s.len() > 0 && forall|i: int| 0 <= i < s.len() ==> is_digit(#[trigger] s[i])
}

/// The signed integer that std's `str::parse::<i64>` accepts: an optional
/// sign, then one or more digits, with the value in range.
pub open spec fn spec_parse_i64(s: Seq<char>) -> Option<i64> {
    let negative = s.len() > 0 && s[0] == '-';
    let mag = if s.len() > 0 && (s[0] == '-' || s[0] == '+') {
        s.skip(1)
    } else {
        s
    };
    if all_digits(mag) {
        let v = if negative {
            -digits_val(mag)
        } else {
            digits_val(mag)
        };
        if i64::MIN <= v <= i64::MAX {
            Some(v as i64)
        } else {
            None
        }
    } else {
        None
    }
}

proof fn lemma_digits_val_nonneg(s: Seq<char>)
    requires
        forall|i: int| 0 <= i < s.len() ==> is_digit(#[trigger] s[i]),
    ensures
        digits_val(s) >= 0,
    decreases s.len(),
{
    if s.len() > 0 {
        lemma_digits_val_nonneg(s.drop_last());
    }
}

proof fn lemma_digits_val_monotone(s: Seq<char>, i: int)
    requires
        0 <= i <= s.len(),
        forall|j: int| 0 <= j < s.len() ==> is_digit(#[trigger] s[j]),
    ensures
        digits_val(s) >= digits_val(s.take(i)),
    decreases s.len() - i,
{
    if i < s.len() {
        lemma_digits_val_monotone(s, i + 1);
        let t = s.take(i + 1);
        assert(t.drop_last() =~= s.take(i));
        lemma_digits_val_nonneg(s.take(i));
        assert(digits_val(t) == digits_val(s.take(i)) * 10 + digit_val(s[i]));
    } else {
        assert(s.take(i) =~= s);
    }
}

/// Parse a signed 64-bit integer as std's `str::parse` does.
#[verifier::rlimit(50)]
pub fn parse_i64(s: &str) -> (r: Option<i64>)
    ensures
        r == spec_parse_i64(s@),
{
    let n = s.unicode_len();
    if n == 0 {
        return None;
    }
    let c0 = s.get_char(0);
    let negative = c0 == '-';
    let start: usize = if c0 == '-' || c0 == '+' {
        1
    } else {
        0
    };
    if start == n {
        return None;
    }
    let ghost mag = if start == 1 { s@.skip(1) } else { s@ };
    proof {
        if start == 0 {
            assert(s@.take(0) =~= Seq::<char>::empty());
        }
    }
    let limit: u128 = if negative {
        9223372036854775808u128
    } else {
        9223372036854775807u128
    };
    let mut acc: u128 = 0;
    let mut i: usize = start;
    while i < n
        invariant
            n == s@.len(),
            start <= i <= n,
            start == 0 || start == 1,
            start == 1 ==> n >= 2 && (s@[0] == '-' || s@[0] == '+'),
            start == 0 ==> !(s@[0] == '-' || s@[0] == '+'),
            negative == (s@[0] == '-'),
            mag == (if start == 1 { s@.skip(1) } else { s@ }),
            mag.len() == n - start,
            forall|j: int| start <= j < n ==> mag[j - start] == s@[j],
            forall|j: int| start <= j < i ==> is_digit(#[trigger] s@[j]),
            acc == digits_val(mag.take(i - start)),
            acc <= limit,
            limit == if negative { 9223372036854775808u128 } else { 9223372036854775807u128 },
        decreases n - i,
    {
        let c = s.get_char(i);
        let u = c as u32;
        if u < 48 || u > 57 {
            return None;
        }
        let d = (u - 48) as u128;
        acc = acc * 10 + d;
        proof {
            let t = mag.take(i - start + 1);
            assert(t.drop_last() =~= mag.take(i - start));
            assert(t.last() == s@[i as int]);
        }
        i = i + 1;
        if acc > limit {
            proof {
                if all_digits(mag) {
                    lemma_digits_val_monotone(mag, i - start);
                    assert(mag.take(mag.len() as int) =~= mag);
                }
            }
            return None;
        }
    }
    proof {
        assert(mag.take(mag.len() as int) =~= mag);
        lemma_digits_val_nonneg(mag);
    }
    if negative {
        if acc == 9223372036854775808u128 {
            Some(i64::MIN)
        } else {
            Some(-((acc as u64) as i64))
        }
    } else {
        Some(acc as i64)
    }
}

/// The requested view bound: a positive parsed integer, anything else
/// meaning unlimited.
pub open spec fn spec_normalize_max_views(max_views: Option<Seq<char>>) -> Option<i64> {
    match max_views {
        Some(s) => match spec_parse_i64(s) {
            Some(v) => if v > 0 {
                Some(v)
            } else {
                None
            },
            None => None,
        },
        None => None,
    }
}

/// Parse the view bound from the form, keeping only positive values.
pub fn normalize_max_views(max_views: Option<String>) -> (r: Option<i64>)
    ensures
        r == spec_normalize_max_views(match max_views {
            Some(s) => Some(s@),
            None => None,
        }),
{
    match max_views {
        Some(s) => match parse_i64(s.as_str()) {
            Some(v) => if v > 0 {
                Some(v)
            } else {
                None
            },
            None => None,
        },
        None => None,
    }
}

} // verus!
