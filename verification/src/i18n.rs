use vstd::prelude::*;
use crate::models::Lang;
use crate::text::{spec_trim, str_eq, trim};

verus! {

// Choosing the user-interface language of a request: an explicit query
// parameter wins and sets a cookie, then a cookie already set, then the
// advertised language preferences, with Chinese as the default.

/// The position of the first semicolon, or the length when there is none.
pub open spec fn spec_first_semi(s: Seq<char>) -> int
    decreases s.len(),
{
    if s.len() == 0 {
        0
    } else if s[0] == ';' {
        0
    } else {
        1 + spec_first_semi(s.skip(1))
    }
}

proof fn lemma_first_semi_scan(s: Seq<char>, k: int)
    requires
        0 <= k <= s.len(),
        forall|j: int| 0 <= j < k ==> s[j] != ';',
        k == s.len() || s[k] == ';',
    ensures
        spec_first_semi(s) == k,
    decreases k,
{
    if s.len() == 0 {
    } else if k == 0 {
    } else {
        let t = s.skip(1);
        assert(forall|j: int| 0 <= j < k - 1 ==> #[trigger] t[j] == s[j + 1]);
        lemma_first_semi_scan(t, k - 1);
    }
}

/// The language a single cookie part names, when it is a well-formed
/// `lang=` part.
pub open spec fn spec_part_lang(p: Seq<char>) -> Option<Lang> {
    if p.len() >= 5 && p.take(5) == "lang="@ {
        let suffix = p.skip(5);
        if suffix == "zh"@ {
            Some(Lang::Zh)
        } else if suffix == "en"@ {
            Some(Lang::En)
        } else {
            None
        }
    } else {
        None
    }
}

/// The language the cookie header names: its parts, split on semicolons
/// and trimmed, are scanned in order for the first well-formed `lang=`
/// part.
pub open spec fn spec_cookie_lang(s: Seq<char>) -> Option<Lang>
    decreases s.len(),
    via spec_cookie_lang_decreases
{
    let k = spec_first_semi(s);
    let part = spec_trim(s.take(k));
    match spec_part_lang(part) {
        Some(l) => Some(l),
        None => if k < s.len() {
            spec_cookie_lang(s.skip(k + 1))
        } else {
            None
        },
    }
}

proof fn lemma_first_semi_range(s: Seq<char>)
    ensures
        0 <= spec_first_semi(s) <= s.len(),
    decreases s.len(),
{
    if s.len() > 0 && s[0] != ';' {
        lemma_first_semi_range(s.skip(1));
    }
}

#[via_fn]
proof fn spec_cookie_lang_decreases(s: Seq<char>) {
    lemma_first_semi_range(s);
}

/// Find the first well-formed `lang=` part of a cookie header.
pub fn cookie_lang(s: &str) -> (r: Option<Lang>)
    ensures
        r == spec_cookie_lang(s@),
    decreases s@.len(),
{
    let n = s.unicode_len();
    let mut k: usize = 0;
    while k < n && s.get_char(k) != ';'
        invariant
            n == s@.len(),
            k <= n,
            forall|j: int| 0 <= j < k ==> s@[j] != ';',
        decreases n - k,
    {
        k = k + 1;
    }
    proof {
        lemma_first_semi_scan(s@, k as int);
    }
    let part_raw = s.substring_char(0, k);
    let part = trim(part_raw);
    let part_len = part.as_str().unicode_len();
    if part_len >= 5 {
        let head = part.as_str().substring_char(0, 5);
        if str_eq(head, "lang=") {
            proof {
                assert(part@.take(5) == "lang="@);
            }
            let suffix = part.as_str().substring_char(5, part_len);
            proof {
                assert(suffix@ =~= part@.skip(5));
            }
            if str_eq(suffix, "zh") {
                return Some(Lang::Zh);
            }
            if str_eq(suffix, "en") {
                return Some(Lang::En);
            }
            if k < n {
                let rest = s.substring_char(k + 1, n);
                proof {
                    assert(rest@ =~= s@.skip(k as int + 1));
                }
                return cookie_lang(rest);
            }
            return None;
        }
        proof {
            assert(head@ =~= part@.take(5));
        }
    }
    if k < n {
        let rest = s.substring_char(k + 1, n);
        proof {
            assert(rest@ =~= s@.skip(k as int + 1));
        }
        cookie_lang(rest)
    } else {
        None
    }
}

/// Whether the text contains a `z` immediately followed by an `h`, in
/// either case: how an advertised language list is probed for Chinese.
pub open spec fn spec_contains_zh(s: Seq<char>) -> bool {
    exists|i: int|
        0 <= i && i + 1 < s.len() && (s[i] == 'z' || s[i] == 'Z') && (#[trigger] s[i + 1] == 'h'
            || s[i + 1] == 'H')
}

/// Probe a header value for `zh`, ignoring ASCII case.
pub fn contains_zh(s: &str) -> (r: bool)
    ensures
        r == spec_contains_zh(s@),
{
    let n = s.unicode_len();
    if n < 2 {
        return false;
    }
    let mut i: usize = 0;
    while i + 1 < n
        invariant
            n == s@.len(),
            i + 1 <= n,
            forall|j: int|
                0 <= j && j + 1 < i + 1 ==> !((s@[j] == 'z' || s@[j] == 'Z') && (#[trigger] s@[j
                    + 1] == 'h' || s@[j + 1] == 'H')),
        decreases n - i,
    {
        let a = s.get_char(i);
        let b = s.get_char(i + 1);
        if (a == 'z' || a == 'Z') && (b == 'h' || b == 'H') {
            return true;
        }
        i = i + 1;
    }
    false
}

/// The cookie set when a language is chosen explicitly.
pub open spec fn spec_lang_cookie(l: Lang) -> Seq<char> {
    if l == Lang::Zh {
        "lang=zh; Path=/; Max-Age=31536000"@
    } else {
        "lang=en; Path=/; Max-Age=31536000"@
    }
}

/// The chosen language and the cookie to set, if any: the explicit query
/// parameter wins and is remembered in a cookie, then the cookie already
/// sent, then the advertised preferences, defaulting to Chinese.
pub open spec fn spec_select_language(
    lang_param: Option<Seq<char>>,
    cookie: Option<Seq<char>>,
    accept: Option<Seq<char>>,
) -> (Lang, Option<Seq<char>>) {
    if lang_param matches Some(p) && p == "zh"@ {
        (Lang::Zh, Some(spec_lang_cookie(Lang::Zh)))
    } else if lang_param matches Some(p) && p == "en"@ {
        (Lang::En, Some(spec_lang_cookie(Lang::En)))
    } else {
        let from_cookie = match cookie {
            Some(c) => spec_cookie_lang(c),
            None => None,
        };
        match from_cookie {
            Some(l) => (l, None),
            None => {
                let zh = match accept {
                    Some(a) => spec_contains_zh(a),
                    None => true,
                };
                (if zh {
                    Lang::Zh
                } else {
                    Lang::En
                }, None)
            },
        }
    }
}

/// Choose the user-interface language of one request.
pub fn select_language(
    lang_param: Option<&String>,
    cookie: Option<&String>,
    accept_language: Option<&String>,
) -> (r: (Lang, Option<String>))
    ensures
        ({
            let sp = spec_select_language(
                match lang_param {
                    Some(p) => Some(p@),
                    None => None,
                },
                match cookie {
                    Some(c) => Some(c@),
                    None => None,
                },
                match accept_language {
                    Some(a) => Some(a@),
                    None => None,
                },
            );
            r.0 == sp.0 && (match r.1 {
                Some(s) => sp.1 == Some(s@),
                None => sp.1 is None,
            })
        }),
{
    if let Some(p) = lang_param {
        if str_eq(p.as_str(), "zh") {
            return (Lang::Zh, Some(String::from_str("lang=zh; Path=/; Max-Age=31536000")));
        }
        if str_eq(p.as_str(), "en") {
            return (Lang::En, Some(String::from_str("lang=en; Path=/; Max-Age=31536000")));
        }
    }
    if let Some(c) = cookie {
        if let Some(l) = cookie_lang(c.as_str()) {
            return (l, None);
        }
    }
    let zh = match accept_language {
        Some(a) => contains_zh(a.as_str()),
        None => true,
    };
    if zh {
        (Lang::Zh, None)
    } else {
        (Lang::En, None)
    }
}

} // verus!
