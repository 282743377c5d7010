use vstd::prelude::*;
use crate::models::Strings;
use crate::text::{i64_to_string, replace_all, spec_i64_dec, spec_replace};

verus! {

// Presentation of spans and counters as user-facing text, built from the
// translated templates.

/// A counting template with its placeholder filled by `n`.
pub open spec fn spec_fill_count(template: Seq<char>, n: int) -> Seq<char> {
    spec_replace(template, "{}"@, spec_i64_dec(n))
}

/// Fill the `{}` placeholder of a template with a number.
pub fn fill_count(template: &str, n: i64) -> (r: String)
    ensures
        r@ == spec_fill_count(template@, n as int),
{
    proof {
        reveal_strlit("{}");
    }
    let num = i64_to_string(n);
    replace_all(template, "{}", num.as_str())
}

/// The label of an expiry choice of `secs` seconds: whole days, hours or
/// minutes where they divide evenly, else seconds, singular or plural.
pub open spec fn spec_format_expires_label(secs: i64, strings: Strings) -> Seq<char> {
    if secs >= 86400 && secs % 86400 == 0 {
        let days = secs / 86400;
        if days == 1 {
            strings.expires_days_one@
        } else {
            spec_fill_count(strings.expires_days_many@, days)
        }
    } else if secs >= 3600 && secs % 3600 == 0 {
        let hours = secs / 3600;
        if hours == 1 {
            strings.expires_hours_one@
        } else {
            spec_fill_count(strings.expires_hours_many@, hours)
        }
    } else if secs >= 60 && secs % 60 == 0 {
        let minutes = secs / 60;
        if minutes == 1 {
            strings.expires_minutes_one@
        } else {
            spec_fill_count(strings.expires_minutes_many@, minutes)
        }
    } else if secs == 1 {
        strings.expires_seconds_one@
    } else {
        spec_fill_count(strings.expires_seconds_many@, secs as int)
    }
}

/// Spell out one expiry choice.
pub fn format_expires_label(secs: i64, strings: &Strings) -> (r: String)
    ensures
        r@ == spec_format_expires_label(secs, *strings),
{
    if secs >= 86400 && secs % 86400 == 0 {
        let days = secs / 86400;
        if days == 1 {
            strings.expires_days_one.clone()
        } else {
            fill_count(strings.expires_days_many.as_str(), days)
        }
    } else if secs >= 3600 && secs % 3600 == 0 {
        let hours = secs / 3600;
        if hours == 1 {
            strings.expires_hours_one.clone()
        } else {
            fill_count(strings.expires_hours_many.as_str(), hours)
        }
    } else if secs >= 60 && secs % 60 == 0 {
        let minutes = secs / 60;
        if minutes == 1 {
            strings.expires_minutes_one.clone()
        } else {
            fill_count(strings.expires_minutes_many.as_str(), minutes)
        }
    } else if secs == 1 {
        strings.expires_seconds_one.clone()
    } else {
        fill_count(strings.expires_seconds_many.as_str(), secs)
    }
}

/// The remaining life of a record expiring at `expires_at`, seen from
/// `now`: expired, or the span in the largest round unit.
pub open spec fn spec_format_duration_at(expires_at: i64, now: i64, strings: Strings) -> Seq<
    char,
> {
    let remaining = expires_at - now;
    if remaining <= 0 {
        strings.duration_expired@
    } else if remaining < 60 {
        spec_fill_count(strings.duration_seconds@, remaining)
    } else if remaining < 3600 {
        spec_fill_count(strings.duration_minutes@, remaining / 60)
    } else if remaining < 86400 {
        spec_fill_count(strings.duration_hours@, remaining / 3600)
    } else {
        spec_fill_count(strings.duration_days@, remaining / 86400)
    }
}

/// Spell out the remaining life of a record, measured from `now`.
pub fn format_duration_at(expires_at: i64, now: i64, strings: &Strings) -> (r: String)
    ensures
        r@ == spec_format_duration_at(expires_at, now, *strings),
{
    let remaining: i128 = expires_at as i128 - now as i128;
    if remaining <= 0 {
        strings.duration_expired.clone()
    } else if remaining < 60 {
        fill_count(strings.duration_seconds.as_str(), remaining as i64)
    } else if remaining < 3600 {
        fill_count(strings.duration_minutes.as_str(), (remaining / 60) as i64)
    } else if remaining < 86400 {
        fill_count(strings.duration_hours.as_str(), (remaining / 3600) as i64)
    } else {
        let days: i128 = remaining / 86400;
        fill_count(strings.duration_days.as_str(), days as i64)
    }
}

/// Spell out the remaining life of a record, measured from the clock.
pub fn format_duration(expires_at: i64, strings: &Strings) -> (r: String)
    ensures
        exists|now: i64| now >= 0 && r@ == spec_format_duration_at(expires_at, now, *strings),
{
    let now = crate::clock::now_ts();
    let r = format_duration_at(expires_at, now, strings);
    proof {
        assert(now >= 0 && r@ == spec_format_duration_at(expires_at, now, *strings));
    }
    r
}

/// The note on how many reads a burn-limited record has left after the
/// read being served: nothing for an unlimited record, a last-view notice
/// at zero, else the count.
pub open spec fn spec_remaining_views_label(
    max_views: Option<i64>,
    views: i64,
    strings: Strings,
) -> Option<Seq<char>> {
    match max_views {
        Some(m) => {
            let rem = if m - views - 1 >= 0 {
                m - views - 1
            } else {
                0
            };
            if rem == 0 {
                Some(strings.detail_zero_views@)
            } else {
                Some(spec_fill_count(strings.detail_remaining_views@, rem))
            }
        },
        None => None,
    }
}

/// Spell out how many reads a burn-limited record has left.
pub fn remaining_views_label(max_views: Option<i64>, views: i64, strings: &Strings) -> (r: Option<
    String,
>)
    requires
        views >= 0,
    ensures
        ({
            let sp = spec_remaining_views_label(max_views, views, *strings);
            match r {
                Some(s) => sp == Some(s@),
                None => sp is None,
            }
        }),
{
    match max_views {
        Some(m) => {
            let rem_wide: i128 = m as i128 - views as i128 - 1;
            let rem: i128 = if rem_wide >= 0 {
                rem_wide
            } else {
                0
            };
            if rem == 0 {
                Some(strings.detail_zero_views.clone())
            } else {
                Some(fill_count(strings.detail_remaining_views.as_str(), rem as i64))
            }
        },
        None => None,
    }
}

} // verus!
