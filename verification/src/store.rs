use vstd::prelude::*;
use vstd::multiset::Multiset;
use vstd::seq_lib::group_seq_properties;
use crate::models::{Paste, PublicPaste, RawPaste};
use crate::text::str_eq;

verus! {

// The record store: one flat table of pastes, addressed by token, with
// expiry sweeping, two eviction policies, burn-on-read and renewal built on
// top of it.  The store is the single shared mutable resource; every
// operation states exactly how it transforms the table.

/// How many tokens an insert may try before giving up.
pub const MAX_TOKEN_ATTEMPTS: usize = 5;

/// One stored paste row.
pub struct PasteRecord {
    pub id: i64,
    pub token: String,
    pub title: String,
    pub content: String,
    pub language: String,
    pub created_at: i64,
    pub expires_at: i64,
    pub original_duration: i64,
    pub views: i64,
    pub max_views: Option<i64>,
    pub is_public: bool,
}

impl Clone for PasteRecord {
    fn clone(&self) -> (r: Self)
        ensures
            r == *self,
    {
        PasteRecord {
            id: self.id,
            token: self.token.clone(),
            title: self.title.clone(),
            content: self.content.clone(),
            language: self.language.clone(),
            created_at: self.created_at,
            expires_at: self.expires_at,
            original_duration: self.original_duration,
            views: self.views,
            max_views: self.max_views,
            is_public: self.is_public,
        }
    }
}

/// A row as an older on-disk layout may deliver it: columns that later
/// layouts added can be missing.
pub struct LegacyRow {
    pub id: i64,
    pub token: String,
    pub title: String,
    pub content: String,
    pub created_at: i64,
    pub expires_at: Option<i64>,
    pub language: Option<String>,
    pub views: Option<i64>,
    pub max_views: Option<i64>,
    pub is_public: Option<bool>,
    pub original_duration: Option<i64>,
}

/// Backfill the defaults that the schema evolution applies to an old row:
/// a missing expiry becomes `now` (the row expires at once), a missing
/// language becomes the sentinel, counters start at zero, a row is private
/// unless marked otherwise and never both public and burn-limited, and a
/// missing requested span is reconstructed from the expiry, never below
/// zero.
pub fn upgrade_legacy_row(row: LegacyRow, now: i64) -> (r: PasteRecord)
    ensures
        r.id == row.id,
        r.token == row.token,
        r.title == row.title,
        r.content == row.content,
        r.created_at == row.created_at,
        r.expires_at == match row.expires_at {
            Some(x) => x,
            None => now,
        },
        r.language@ == match row.language {
            Some(l) => l@,
            None => "auto"@,
        },
        r.views == match row.views {
            Some(v) => if v >= 0 {
                v
            } else {
                0
            },
            None => 0,
        },
        r.max_views == row.max_views,
        r.is_public == ({
            let p = match row.is_public {
                Some(p) => p,
                None => false,
            };
            p && row.max_views is None
        }),
        r.original_duration == ({
            let base = match row.original_duration {
                Some(d) => d as int,
                None => (match row.expires_at {
                    Some(x) => x,
                    None => now,
                }) - row.created_at,
            };
            if base < 0 {
                0
            } else if base > i64::MAX {
                i64::MAX as int
            } else {
                base
            }
        }),
        r.original_duration >= 0,
        r.views >= 0,
        !(r.is_public && r.max_views is Some),
{
    let expires_at = match row.expires_at {
        Some(x) => x,
        None => now,
    };
    let language = match row.language {
        Some(l) => l,
        None => String::from_str("auto"),
    };
    let views = match row.views {
        Some(v) => if v >= 0 {
            v
        } else {
            0
        },
        None => 0,
    };
    let is_public = (match row.is_public {
        Some(p) => p,
        None => false,
    }) && row.max_views.is_none();
    let duration_wide: i128 = match row.original_duration {
        Some(d) => d as i128,
        None => expires_at as i128 - row.created_at as i128,
    };
    let original_duration: i64 = if duration_wide < 0 {
        0
    } else if duration_wide > i64::MAX as i128 {
        i64::MAX
    } else {
        duration_wide as i64
    };
    PasteRecord {
        id: row.id,
        token: row.token,
        title: row.title,
        content: row.content,
        language,
        created_at: row.created_at,
        expires_at,
        original_duration,
        views,
        max_views: row.max_views,
        is_public,
    }
}

/// Why an insert failed.
#[derive(Clone, Copy, Debug, PartialEq, Eq, Structural)]
pub enum StoreError {
    /// Every attempted token was already taken.
    CollisionExhausted,
    /// The id sequence has no next value.
    IdSpaceExhausted,
}

/// Why a renewal did not happen.
#[derive(Clone, Copy, Debug, PartialEq, Eq, Structural)]
pub enum RenewError {
    /// The record is ineligible or not yet stale enough.
    Rejected,
    /// No record carries the token.
    NotFound,
}

/// The token-addressed record store.
pub struct PasteStore {
    records: Vec<PasteRecord>,
    next_id: i64,
}

impl View for PasteStore {
    type V = Seq<PasteRecord>;

    closed spec fn view(&self) -> Seq<PasteRecord> {
        self.records@
    }
}

/// The per-record part of the store invariant.
pub open spec fn record_ok(r: PasteRecord) -> bool {
    &&& r.views >= 0
    &&& r.original_duration >= 0
    &&& !(r.is_public && r.max_views is Some)
    &&& match r.max_views {
        Some(m) => m > 0 ==> r.views < m,
        None => true,
    }
}

/// The total content length of the table, in characters.
pub open spec fn total_chars(s: Seq<PasteRecord>) -> int
    decreases s.len(),
{
    if s.len() == 0 {
        0
    } else {
        total_chars(s.drop_last()) + s.last().content@.len()
    }
}

/// The store invariant: ids are assigned in increasing order and never
/// reused, tokens are unique, every record is internally consistent, and
/// the total content length stays within the machine bound.
pub open spec fn store_inv(s: Seq<PasteRecord>, next_id: int) -> bool {
    &&& 1 <= next_id <= i64::MAX
    &&& forall|i: int| 0 <= i < s.len() ==> 1 <= (#[trigger] s[i]).id < next_id
    &&& forall|i: int, j: int|
        0 <= i < j < s.len() ==> (#[trigger] s[i]).id < (#[trigger] s[j]).id
    &&& forall|i: int, j: int|
        0 <= i < s.len() && 0 <= j < s.len() && i != j ==> (#[trigger] s[i]).token@ != (
        #[trigger] s[j]).token@
    &&& forall|i: int| 0 <= i < s.len() ==> record_ok(#[trigger] s[i])
    &&& total_chars(s) <= i64::MAX
}

/// Whether some record carries the token.
pub open spec fn has_token(s: Seq<PasteRecord>, token: Seq<char>) -> bool {
    exists|i: int| 0 <= i < s.len() && (#[trigger] s[i]).token@ == token
}

/// The index of the first record carrying the token, or a negative value
/// when there is none.
pub open spec fn find_token_idx(s: Seq<PasteRecord>, token: Seq<char>) -> int
    decreases s.len(),
{
    if s.len() == 0 {
        -1
    } else if s[0].token@ == token {
        0
    } else {
        let r = find_token_idx(s.skip(1), token);
        if r < 0 {
            -1
        } else {
            r + 1
        }
    }
}

/// Liveness at time `now`, as a predicate value.
pub open spec fn live_pred(now: i64) -> spec_fn(PasteRecord) -> bool {
    |r: PasteRecord| r.expires_at > now
}

/// The table after an expiry sweep at time `now`.
pub open spec fn spec_sweep(s: Seq<PasteRecord>, now: i64) -> Seq<PasteRecord> {
    s.filter(live_pred(now))
}

/// The eviction order: soonest-expiring first, then lowest id.
pub open spec fn evict_lt(a: PasteRecord, b: PasteRecord) -> bool {
    a.expires_at < b.expires_at || (a.expires_at == b.expires_at && a.id < b.id)
}

/// The index of the first record that is minimal in the eviction order.
pub open spec fn min_evict_idx(s: Seq<PasteRecord>) -> int
    recommends
        s.len() > 0,
    decreases s.len(),
{
    if s.len() <= 1 {
        0
    } else {
        let m = min_evict_idx(s.drop_last());
        if evict_lt(s.last(), s[m]) {
            s.len() - 1
        } else {
            m
        }
    }
}

/// The first minimal index lies in the sequence.
pub proof fn lemma_min_evict_idx_in_range(s: Seq<PasteRecord>)
    requires
        s.len() > 0,
    ensures
        0 <= min_evict_idx(s) < s.len(),
        forall|j: int| 0 <= j < s.len() ==> !evict_lt(#[trigger] s[j], s[min_evict_idx(s)]),
    decreases s.len(),
{
    if s.len() > 1 {
        lemma_min_evict_idx_in_range(s.drop_last());
        assert(forall|j: int| 0 <= j < s.len() - 1 ==> s.drop_last()[j] == #[trigger] s[j]);
    }
}

/// The table after rows have been evicted, soonest-expiring first, until at
/// most `allowed` remain.
pub open spec fn spec_enforce_count(s: Seq<PasteRecord>, allowed: int) -> Seq<PasteRecord>
    decreases s.len(),
    via spec_enforce_count_decreases
{
    if s.len() == 0 || s.len() <= allowed {
        s
    } else {
        spec_enforce_count(s.remove(min_evict_idx(s)), allowed)
    }
}

#[via_fn]
proof fn spec_enforce_count_decreases(s: Seq<PasteRecord>, allowed: int) {
    if !(s.len() == 0 || s.len() <= allowed) {
        lemma_min_evict_idx_in_range(s);
    }
}

/// The table after rows have been evicted, soonest-expiring first, until
/// the total content length is at most `allowed`.
pub open spec fn spec_enforce_bytes(s: Seq<PasteRecord>, allowed: int) -> Seq<PasteRecord>
    decreases s.len(),
    via spec_enforce_bytes_decreases
{
    if s.len() == 0 || total_chars(s) <= allowed {
        s
    } else {
        spec_enforce_bytes(s.remove(min_evict_idx(s)), allowed)
    }
}

#[via_fn]
proof fn spec_enforce_bytes_decreases(s: Seq<PasteRecord>, allowed: int) {
    if !(s.len() == 0 || total_chars(s) <= allowed) {
        lemma_min_evict_idx_in_range(s);
    }
}

proof fn lemma_total_chars_nonneg(s: Seq<PasteRecord>)
    ensures
        total_chars(s) >= 0,
    decreases s.len(),
{
    if s.len() > 0 {
        lemma_total_chars_nonneg(s.drop_last());
    }
}

proof fn lemma_total_chars_take_step(s: Seq<PasteRecord>, i: int)
    requires
        0 <= i < s.len(),
    ensures
        total_chars(s.take(i + 1)) == total_chars(s.take(i)) + s[i].content@.len(),
{
    let t = s.take(i + 1);
    assert(t.drop_last() =~= s.take(i));
    assert(t.last() == s[i]);
}

proof fn lemma_total_chars_take_le(s: Seq<PasteRecord>, i: int)
    requires
        0 <= i <= s.len(),
    ensures
        total_chars(s.take(i)) <= total_chars(s),
    decreases s.len() - i,
{
    if i == s.len() {
        assert(s.take(i) =~= s);
    } else {
        lemma_total_chars_take_step(s, i);
        lemma_total_chars_take_le(s, i + 1);
    }
}

proof fn lemma_total_chars_remove(s: Seq<PasteRecord>, i: int)
    requires
        0 <= i < s.len(),
    ensures
        total_chars(s.remove(i)) == total_chars(s) - s[i].content@.len(),
    decreases s.len(),
{
    if i == s.len() - 1 {
        assert(s.remove(i) =~= s.drop_last());
    } else {
        assert(s.remove(i).drop_last() =~= s.drop_last().remove(i));
        assert(s.remove(i).last() == s.last());
        lemma_total_chars_remove(s.drop_last(), i);
    }
}

pub proof fn lemma_inv_remove(s: Seq<PasteRecord>, next_id: int, i: int)
    requires
        store_inv(s, next_id),
        0 <= i < s.len(),
    ensures
        store_inv(s.remove(i), next_id),
{
    lemma_total_chars_remove(s, i);
    let t = s.remove(i);
    assert(forall|j: int| 0 <= j < t.len() ==> #[trigger] t[j] == (if j < i {
        s[j]
    } else {
        s[j + 1]
    }));
    lemma_total_chars_nonneg(seq![s[i]]);
}

proof fn lemma_filter_take_step(s: Seq<PasteRecord>, pred: spec_fn(PasteRecord) -> bool, i: int)
    requires
        0 <= i < s.len(),
    ensures
        s.take(i + 1).filter(pred) == if pred(s[i]) {
            s.take(i).filter(pred).push(s[i])
        } else {
            s.take(i).filter(pred)
        },
{
    reveal(Seq::filter);
    let t = s.take(i + 1);
    assert(t.drop_last() =~= s.take(i));
    assert(t.last() == s[i]);
}

proof fn lemma_inv_filter(s: Seq<PasteRecord>, next_id: int, pred: spec_fn(PasteRecord) -> bool)
    requires
        store_inv(s, next_id),
    ensures
        store_inv(s.filter(pred), next_id),
        total_chars(s.filter(pred)) <= total_chars(s),
        forall|k: int|
            0 <= k < s.filter(pred).len() ==> s.contains(#[trigger] s.filter(pred)[k]),
    decreases s.len(),
{
    reveal(Seq::filter);
    broadcast use group_seq_properties;

    if s.len() == 0 {
        assert(s.filter(pred) =~= s);
    } else {
        let prefix = s.drop_last();
        let last = s.last();
        assert(store_inv(prefix, next_id)) by {
            lemma_total_chars_nonneg(seq![last]);
            assert(total_chars(prefix) <= total_chars(s));
        }
        lemma_inv_filter(prefix, next_id, pred);
        let f = prefix.filter(pred);
        // every filtered record comes from the prefix, so its id is below
        // the last record's and its token differs from the last record's
        assert(forall|k: int|
            0 <= k < f.len() ==> (#[trigger] f[k]).id < last.id && f[k].token@ != last.token@) by {
            assert(forall|k: int| 0 <= k < f.len() ==> exists|m: int|
                0 <= m < prefix.len() && prefix[m] == #[trigger] f[k]);
            assert(forall|m: int|
                0 <= m < prefix.len() ==> (#[trigger] prefix[m]).id < last.id && prefix[m].token@
                    != last.token@);
        }
        assert(forall|k: int| 0 <= k < prefix.len() ==> s.contains(#[trigger] prefix[k])) by {
            assert(forall|k: int| 0 <= k < prefix.len() ==> prefix[k] == #[trigger] s[k]);
        }
        if pred(last) {
            assert(s.filter(pred) == f.push(last));
            lemma_total_chars_nonneg(f);
            assert(f.push(last).drop_last() =~= f);
            assert(s.contains(last)) by {
                assert(s[s.len() - 1] == last);
            }
        } else {
            assert(s.filter(pred) == f);
            lemma_total_chars_nonneg(seq![last]);
        }
    }
}

/// What survives a sweep: exactly the records that are still live.
pub proof fn lemma_sweep_membership(s: Seq<PasteRecord>, now: i64)
    ensures
        forall|k: int|
            0 <= k < spec_sweep(s, now).len() ==> s.contains(#[trigger] spec_sweep(s, now)[k])
                && spec_sweep(s, now)[k].expires_at > now,
        forall|i: int|
            0 <= i < s.len() && (#[trigger] s[i]).expires_at > now ==> spec_sweep(
                s,
                now,
            ).contains(s[i]),
    decreases s.len(),
{
    reveal(Seq::filter);
    broadcast use group_seq_properties;

    let pred = live_pred(now);
    if s.len() > 0 {
        let prefix = s.drop_last();
        let last = s.last();
        lemma_sweep_membership(prefix, now);
        let f = prefix.filter(pred);
        assert(forall|k: int| 0 <= k < prefix.len() ==> s.contains(#[trigger] prefix[k])) by {
            assert(forall|k: int| 0 <= k < prefix.len() ==> prefix[k] == #[trigger] s[k]);
        }
        assert(s.contains(last)) by {
            assert(s[s.len() - 1] == last);
        }
        if pred(last) {
            assert(s.filter(pred) == f.push(last));
        } else {
            assert(s.filter(pred) == f);
        }
        assert(forall|i: int|
            0 <= i < s.len() && (#[trigger] s[i]).expires_at > now ==> spec_sweep(
                s,
                now,
            ).contains(s[i])) by {
            assert(forall|i: int| 0 <= i < prefix.len() ==> prefix[i] == #[trigger] s[i]);
            assert(forall|x: PasteRecord| f.contains(x) ==> s.filter(pred).contains(x));
        }
    } else {
        assert(s.filter(pred) =~= s);
    }
}

proof fn lemma_count_below_next_id(s: Seq<PasteRecord>, next_id: int)
    requires
        store_inv(s, next_id),
    ensures
        s.len() < next_id,
    decreases s.len(),
{
    if s.len() > 0 {
        let prefix = s.drop_last();
        let last = s.last();
        assert(store_inv(prefix, last.id as int)) by {
            lemma_total_chars_nonneg(seq![last]);
            assert(total_chars(prefix) <= total_chars(s));
            lemma_total_chars_nonneg(prefix);
        }
        lemma_count_below_next_id(prefix, last.id as int);
    }
}

/// The eviction allowance: `max - reserve`, never below zero.
pub open spec fn allowed_amount(max: i64, reserve: i64) -> int {
    if max - reserve >= 0 {
        max - reserve
    } else {
        0
    }
}

/// A view counter incremented by one, held at the numeric ceiling.
pub open spec fn spec_incr_views(v: i64) -> i64 {
    if v < i64::MAX {
        (v + 1) as i64
    } else {
        v
    }
}

/// Whether serving one more read makes the record reach its view bound.
pub open spec fn burns(r: PasteRecord) -> bool {
    match r.max_views {
        Some(m) => m > 0 && spec_incr_views(r.views) >= m,
        None => false,
    }
}

/// The table after a successful read of the record at `i`: the view count
/// goes up by one and a record at its bound is deleted as part of the same
/// read.
pub open spec fn spec_read_update(s: Seq<PasteRecord>, i: int) -> Seq<PasteRecord> {
    if burns(s[i]) {
        s.remove(i)
    } else {
        s.update(
            i,
            PasteRecord { views: spec_incr_views(s[i].views), ..s[i] },
        )
    }
}

/// The full row a read returns, with the view count as it stood before the
/// read.
pub open spec fn spec_paste_of(r: PasteRecord) -> Paste {
    Paste {
        title: r.title,
        content: r.content,
        created_at: r.created_at,
        expires_at: r.expires_at,
        language: r.language,
        views: r.views,
        max_views: r.max_views,
        is_public: r.is_public,
        original_duration: r.original_duration,
    }
}

/// Discoverability at time `now`: public, not burn-limited, not expired.
pub open spec fn discoverable_pred(now: i64) -> spec_fn(PasteRecord) -> bool {
    |r: PasteRecord| r.is_public && r.max_views is None && r.expires_at > now
}

/// A stored record reduced to its public listing shape.
pub open spec fn spec_public_of(r: PasteRecord) -> PublicPaste {
    PublicPaste {
        token: r.token,
        title: r.title,
        content: r.content,
        created_at: r.created_at,
        expires_at: r.expires_at,
        language: r.language,
        original_duration: r.original_duration,
    }
}

/// Every discoverable record of the table, in table order, in its public
/// shape.
pub open spec fn public_entries(s: Seq<PasteRecord>, now: i64) -> Seq<PublicPaste> {
    s.filter(discoverable_pred(now)).map_values(|r: PasteRecord| spec_public_of(r))
}

/// Newest first: creation times never increase along the listing.
pub open spec fn listing_sorted(l: Seq<PublicPaste>) -> bool {
    forall|i: int, j: int|
        0 <= i < j < l.len() ==> (#[trigger] l[i]).created_at >= (#[trigger] l[j]).created_at
}

proof fn lemma_total_chars_update(s: Seq<PasteRecord>, i: int, r: PasteRecord)
    requires
        0 <= i < s.len(),
    ensures
        total_chars(s.update(i, r)) == total_chars(s) - s[i].content@.len() + r.content@.len(),
    decreases s.len(),
{
    if i == s.len() - 1 {
        assert(s.update(i, r).drop_last() =~= s.drop_last());
        assert(s.update(i, r).last() == r);
    } else {
        assert(s.update(i, r).drop_last() =~= s.drop_last().update(i, r));
        assert(s.update(i, r).last() == s.last());
        lemma_total_chars_update(s.drop_last(), i, r);
    }
}

proof fn lemma_inv_update(s: Seq<PasteRecord>, next_id: int, i: int, r: PasteRecord)
    requires
        store_inv(s, next_id),
        0 <= i < s.len(),
        r.id == s[i].id,
        r.token@ == s[i].token@,
        r.content@ == s[i].content@,
        record_ok(r),
    ensures
        store_inv(s.update(i, r), next_id),
{
    lemma_total_chars_update(s, i, r);
}

pub proof fn lemma_find_token_scan(s: Seq<PasteRecord>, token: Seq<char>, i: int)
    requires
        0 <= i <= s.len(),
        forall|j: int| 0 <= j < i ==> (#[trigger] s[j]).token@ != token,
    ensures
        i < s.len() && s[i].token@ == token ==> find_token_idx(s, token) == i,
        i == s.len() ==> find_token_idx(s, token) == -1,
    decreases i, s.len(),
{
    if i == 0 {
        if s.len() == 0 {
        } else if s[0].token@ == token {
        } else {
            lemma_find_token_scan(s.skip(1), token, 0);
        }
    } else {
        assert(s[0].token@ != token);
        let t = s.skip(1);
        assert(forall|j: int| 0 <= j < i - 1 ==> #[trigger] t[j] == s[j + 1]);
        lemma_find_token_scan(t, token, i - 1);
    }
}

/// What the search index says about membership.
pub proof fn lemma_find_token_props(s: Seq<PasteRecord>, token: Seq<char>)
    ensures
        find_token_idx(s, token) >= 0 ==> 0 <= find_token_idx(s, token) < s.len() && s[
            find_token_idx(s, token)].token@ == token,
        find_token_idx(s, token) >= 0 <==> has_token(s, token),
    decreases s.len(),
{
    if s.len() > 0 && s[0].token@ != token {
        let t = s.skip(1);
        lemma_find_token_props(t, token);
        assert(forall|j: int| 0 <= j < t.len() ==> #[trigger] t[j] == s[j + 1]);
        if has_token(s, token) {
            let w = choose|i: int| 0 <= i < s.len() && (#[trigger] s[i]).token@ == token;
            assert(w > 0);
            assert(t[w - 1].token@ == token);
            assert(has_token(t, token));
        }
    }
}

/// The index of the first candidate token not yet in the table, or a
/// negative value when every candidate collides.
pub open spec fn first_free_idx(s: Seq<PasteRecord>, cands: Seq<Seq<char>>) -> int
    decreases cands.len(),
{
    if cands.len() == 0 {
        -1
    } else if !has_token(s, cands[0]) {
        0
    } else {
        let r = first_free_idx(s, cands.skip(1));
        if r < 0 {
            -1
        } else {
            r + 1
        }
    }
}

/// The views of a list of candidate tokens.
pub open spec fn cand_views(cands: Seq<String>) -> Seq<Seq<char>> {
    cands.map_values(|c: String| c@)
}

proof fn lemma_first_free_scan(s: Seq<PasteRecord>, cands: Seq<Seq<char>>, i: int)
    requires
        0 <= i <= cands.len(),
        forall|j: int| 0 <= j < i ==> has_token(s, #[trigger] cands[j]),
    ensures
        i < cands.len() && !has_token(s, cands[i]) ==> first_free_idx(s, cands) == i,
        i == cands.len() ==> first_free_idx(s, cands) == -1,
    decreases i, cands.len(),
{
    if i == 0 {
        if cands.len() == 0 {
        } else if !has_token(s, cands[0]) {
        } else {
            lemma_first_free_scan(s, cands.skip(1), 0);
        }
    } else {
        assert(has_token(s, cands[0]));
        let t = cands.skip(1);
        assert(forall|j: int| 0 <= j < i - 1 ==> #[trigger] t[j] == cands[j + 1]);
        lemma_first_free_scan(s, t, i - 1);
    }
}

/// What the first free candidate index says about membership.
pub proof fn lemma_first_free_props(s: Seq<PasteRecord>, cands: Seq<Seq<char>>)
    ensures
        first_free_idx(s, cands) >= 0 ==> 0 <= first_free_idx(s, cands) < cands.len()
            && !has_token(s, cands[first_free_idx(s, cands)]),
    decreases cands.len(),
{
    if cands.len() > 0 && has_token(s, cands[0]) {
        lemma_first_free_props(s, cands.skip(1));
    }
}

impl PasteStore {
    /// The next id the store will assign.
    pub closed spec fn spec_next_id(&self) -> int {
        self.next_id as int
    }

    /// The store invariant, over the public view.
    pub open spec fn wf(&self) -> bool {
        store_inv(self@, self.spec_next_id())
    }

    /// An empty store.
    pub fn new() -> (r: Self)
        ensures
            r.wf(),
            r@ == Seq::<PasteRecord>::empty(),
            r.spec_next_id() == 1,
    {
        let r = PasteStore { records: Vec::new(), next_id: 1 };
        proof {
            assert(r.records@ =~= Seq::<PasteRecord>::empty());
        }
        r
    }

    /// How many rows are live.
    pub fn count(&self) -> (r: usize)
        ensures
            r == self@.len(),
    {
        self.records.len()
    }

    /// The largest id ever assigned: a proxy for the total number of pastes
    /// ever created, since ids are never reused.
    pub fn high_water_id(&self) -> (r: i64)
        requires
            self.wf(),
        ensures
            r == self.spec_next_id() - 1,
    {
        self.next_id - 1
    }

    /// How many pastes have ever been created and are now gone.
    pub fn faded_count(&self) -> (r: i64)
        requires
            self.wf(),
        ensures
            r == self.spec_next_id() - 1 - self@.len(),
    {
        proof {
            lemma_count_below_next_id(self@, self.spec_next_id());
        }
        self.next_id - 1 - (self.records.len() as i64)
    }

    /// The total content length of all live rows, in characters.
    pub fn total_content_chars(&self) -> (r: i64)
        requires
            self.wf(),
        ensures
            r == total_chars(self@),
    {
        let n = self.records.len();
        let mut total: i64 = 0;
        let mut i: usize = 0;
        proof {
            assert(self@.take(0) =~= Seq::<PasteRecord>::empty());
        }
        while i < n
            invariant
                self.wf(),
                n == self@.len(),
                i <= n,
                total == total_chars(self@.take(i as int)),
            decreases n - i,
        {
            let len_i = self.records[i].content.as_str().unicode_len();
            proof {
                lemma_total_chars_take_step(self@, i as int);
                lemma_total_chars_take_le(self@, i + 1);
                lemma_total_chars_nonneg(self@.take(i as int));
            }
            total = total + (len_i as i64);
            i = i + 1;
        }
        proof {
            assert(self@.take(n as int) =~= self@);
        }
        total
    }

    /// The index of the first record minimal in the eviction order.
    fn min_index(v: &Vec<PasteRecord>) -> (r: usize)
        requires
            v@.len() > 0,
        ensures
            r == min_evict_idx(v@),
            r < v@.len(),
    {
        let mut best: usize = 0;
        let mut i: usize = 1;
        proof {
            assert(v@.take(1) =~= seq![v@[0]]);
        }
        while i < v.len()
            invariant
                1 <= i <= v@.len(),
                best < i,
                best == min_evict_idx(v@.take(i as int)),
            decreases v@.len() - i,
        {
            proof {
                let t = v@.take(i as int + 1);
                assert(t.drop_last() =~= v@.take(i as int));
                assert(t.last() == v@[i as int]);
                assert(forall|j: int| 0 <= j < i ==> t[j] == v@.take(i as int)[j]);
            }
            let better = v[i].expires_at < v[best].expires_at || (v[i].expires_at == v[
                best].expires_at && v[i].id < v[best].id);
            if better {
                best = i;
            }
            i = i + 1;
        }
        proof {
            assert(v@.take(v@.len() as int) =~= v@);
        }
        best
    }

    /// Delete rows, soonest-expiring first, until at most `max - reserve`
    /// remain (never fewer than zero allowed).
    pub fn enforce_size_limit(&mut self, max: i64, reserve: i64)
        requires
            old(self).wf(),
        ensures
            final(self).wf(),
            final(self)@ == spec_enforce_count(old(self)@, allowed_amount(max, reserve)),
            final(self).spec_next_id() == old(self).spec_next_id(),
    {
        let ghost orig = self@;
        let ghost nid = self.spec_next_id();
        let ghost allowed_spec = allowed_amount(max, reserve);
        let allowed_wide: i128 = max as i128 - reserve as i128;
        let allowed: i128 = if allowed_wide < 0 {
            0
        } else {
            allowed_wide
        };
        while (self.records.len() as i128) > allowed
            invariant
                store_inv(self@, nid),
                self.spec_next_id() == nid,
                allowed == allowed_spec,
                allowed >= 0,
                spec_enforce_count(orig, allowed_spec) == spec_enforce_count(self@, allowed_spec),
            decreases self@.len(),
        {
            proof {
                lemma_min_evict_idx_in_range(self@);
            }
            let m = Self::min_index(&self.records);
            proof {
                lemma_inv_remove(self@, nid, m as int);
                assert(spec_enforce_count(self@, allowed_spec) == spec_enforce_count(
                    self@.remove(m as int),
                    allowed_spec,
                ));
            }
            self.records.remove(m);
        }
    }

    /// Delete rows, soonest-expiring first, until the total content length
    /// is at most `max - reserve` (never below an allowance of zero).
    pub fn enforce_total_content_length(&mut self, max: i64, reserve: i64)
        requires
            old(self).wf(),
        ensures
            final(self).wf(),
            final(self)@ == spec_enforce_bytes(old(self)@, allowed_amount(max, reserve)),
            final(self).spec_next_id() == old(self).spec_next_id(),
            total_chars(final(self)@) <= allowed_amount(max, reserve),
    {
        let ghost orig = self@;
        let ghost nid = self.spec_next_id();
        let ghost allowed_spec = allowed_amount(max, reserve);
        let allowed_wide: i128 = max as i128 - reserve as i128;
        let allowed: i128 = if allowed_wide < 0 {
            0
        } else {
            allowed_wide
        };
        let mut total: i64 = self.total_content_chars();
        while (total as i128) > allowed
            invariant
                store_inv(self@, nid),
                self.spec_next_id() == nid,
                allowed == allowed_spec,
                allowed >= 0,
                total == total_chars(self@),
                spec_enforce_bytes(orig, allowed_spec) == spec_enforce_bytes(self@, allowed_spec),
            decreases self@.len(),
        {
            proof {
                lemma_total_chars_nonneg(self@);
                if self@.len() == 0 {
                    assert(total_chars(self@) == 0);
                }
                lemma_min_evict_idx_in_range(self@);
            }
            let m = Self::min_index(&self.records);
            let mlen = self.records[m].content.as_str().unicode_len();
            proof {
                lemma_total_chars_remove(self@, m as int);
                lemma_total_chars_nonneg(self@.remove(m as int));
                lemma_inv_remove(self@, nid, m as int);
                assert(spec_enforce_bytes(self@, allowed_spec) == spec_enforce_bytes(
                    self@.remove(m as int),
                    allowed_spec,
                ));
            }
            total = total - (mlen as i64);
            self.records.remove(m);
        }
    }

    /// The position of the first record carrying `token`.
    fn find_idx(&self, token: &str) -> (r: Option<usize>)
        ensures
            ({
                let k = find_token_idx(self@, token@);
                match r {
                    Some(i) => k == i,
                    None => k == -1,
                }
            }),
    {
        proof {
            lemma_find_token_scan(self@, token@, 0);
        }
        let n = self.records.len();
        let mut i: usize = 0;
        while i < n
            invariant
                n == self@.len(),
                i <= n,
                forall|j: int| 0 <= j < i ==> (#[trigger] self@[j]).token@ != token@,
            decreases n - i,
        {
            if str_eq(self.records[i].token.as_str(), token) {
                proof {
                    lemma_find_token_scan(self@, token@, i as int);
                }
                return Some(i);
            }
            i = i + 1;
        }
        proof {
            lemma_find_token_scan(self@, token@, n as int);
        }
        None
    }

    /// Whether a record carries `token`.
    pub fn contains_token(&self, token: &str) -> (r: bool)
        ensures
            r == has_token(self@, token@),
    {
        proof {
            lemma_find_token_props(self@, token@);
        }
        match self.find_idx(token) {
            Some(_) => true,
            None => false,
        }
    }

    /// Serve one read of the record carrying `token`, when it is live at
    /// `now`: the content is returned to this reader, the view counter
    /// moves up by one, and a record that reaches its view bound is deleted
    /// as part of the same read.
    pub fn read_paste(&mut self, token: &str, now: i64) -> (r: Option<Paste>)
        requires
            old(self).wf(),
        ensures
            final(self).wf(),
            final(self).spec_next_id() == old(self).spec_next_id(),
            ({
                let s = old(self)@;
                let k = find_token_idx(s, token@);
                if k >= 0 && s[k].expires_at > now {
                    r == Some(spec_paste_of(s[k])) && final(self)@ == spec_read_update(s, k)
                } else {
                    r is None && final(self)@ == s
                }
            }),
    {
        let ghost orig = self@;
        let ghost nid = self.spec_next_id();
        proof {
            lemma_find_token_props(orig, token@);
        }
        let idx = match self.find_idx(token) {
            None => {
                return None;
            },
            Some(i) => i,
        };
        if !(self.records[idx].expires_at > now) {
            return None;
        }
        let p = Self::paste_of(&self.records[idx]);
        let views = self.records[idx].views;
        let new_views: i64 = if views < i64::MAX {
            views + 1
        } else {
            views
        };
        let burn = match self.records[idx].max_views {
            Some(m) => m > 0 && new_views >= m,
            None => false,
        };
        if burn {
            proof {
                lemma_inv_remove(orig, nid, idx as int);
            }
            self.records.remove(idx);
        } else {
            let mut rec = self.records.remove(idx);
            rec.views = new_views;
            proof {
                let updated = PasteRecord { views: spec_incr_views(orig[idx as int].views), ..orig[idx as int] };
                assert(rec == updated);
                lemma_inv_update(orig, nid, idx as int, updated);
            }
            self.records.insert(idx, rec);
            proof {
                assert(orig.remove(idx as int).insert(idx as int, rec) =~= orig.update(idx as int, rec));
            }
        }
        Some(p)
    }

    /// Serve one raw read: the same burn-on-read bookkeeping as
    /// `read_paste`, returning only the content row.
    pub fn read_paste_raw(&mut self, token: &str, now: i64) -> (r: Option<RawPaste>)
        requires
            old(self).wf(),
        ensures
            final(self).wf(),
            final(self).spec_next_id() == old(self).spec_next_id(),
            ({
                let s = old(self)@;
                let k = find_token_idx(s, token@);
                if k >= 0 && s[k].expires_at > now {
                    r == Some(RawPaste {
                        content: s[k].content,
                        views: s[k].views,
                        max_views: s[k].max_views,
                    }) && final(self)@ == spec_read_update(s, k)
                } else {
                    r is None && final(self)@ == s
                }
            }),
    {
        match self.read_paste(token, now) {
            Some(p) => Some(RawPaste { content: p.content, views: p.views, max_views: p.max_views }),
            None => None,
        }
    }

    /// Extend the life of the record carrying `token`: only a public,
    /// not burn-limited record qualifies, and only once more than half of
    /// its requested span is gone; then the expiry is reset to a full span
    /// from `now`.  A reset that would push the expiry past the `i64`
    /// horizon is rejected rather than wrapped.
    pub fn renew_paste(&mut self, token: &str, now: i64) -> (r: Result<i64, RenewError>)
        requires
            old(self).wf(),
        ensures
            final(self).wf(),
            final(self).spec_next_id() == old(self).spec_next_id(),
            ({
                let s = old(self)@;
                let k = find_token_idx(s, token@);
                if k < 0 {
                    r == Err::<i64, RenewError>(RenewError::NotFound) && final(self)@ == s
                } else {
                    let rec = s[k];
                    if !rec.is_public || rec.max_views is Some {
                        r == Err::<i64, RenewError>(RenewError::Rejected) && final(self)@ == s
                    } else if rec.expires_at - now < rec.original_duration / 2 && now
                        + rec.original_duration <= i64::MAX {
                        r == Ok::<i64, RenewError>((now + rec.original_duration) as i64)
                            && final(self)@ == s.update(
                            k,
                            PasteRecord { expires_at: (now + rec.original_duration) as i64, ..rec },
                        )
                    } else {
                        r == Err::<i64, RenewError>(RenewError::Rejected) && final(self)@ == s
                    }
                }
            }),
    {
        let ghost orig = self@;
        let ghost nid = self.spec_next_id();
        proof {
            lemma_find_token_props(orig, token@);
        }
        let idx = match self.find_idx(token) {
            None => {
                return Err(RenewError::NotFound);
            },
            Some(i) => i,
        };
        let eligible = self.records[idx].is_public && self.records[idx].max_views.is_none();
        if !eligible {
            return Err(RenewError::Rejected);
        }
        let expires = self.records[idx].expires_at;
        let od = self.records[idx].original_duration;
        let remaining: i128 = expires as i128 - now as i128;
        let half: i128 = (od / 2) as i128;
        if remaining < half {
            let extended: i128 = now as i128 + od as i128;
            if extended <= i64::MAX as i128 {
                let new_expires = extended as i64;
                let mut rec = self.records.remove(idx);
                rec.expires_at = new_expires;
                proof {
                    let updated = PasteRecord { expires_at: (now + orig[idx as int].original_duration) as i64, ..orig[idx as int] };
                    assert(rec == updated);
                    lemma_inv_update(orig, nid, idx as int, updated);
                }
                self.records.insert(idx, rec);
                proof {
                    assert(orig.remove(idx as int).insert(idx as int, rec) =~= orig.update(idx as int, rec));
                }
                Ok(new_expires)
            } else {
                Err(RenewError::Rejected)
            }
        } else {
            Err(RenewError::Rejected)
        }
    }

    /// Copy one stored record into the row shape a read returns.
    fn paste_of(rec: &PasteRecord) -> (r: Paste)
        ensures
            r == spec_paste_of(*rec),
    {
        Paste {
            title: rec.title.clone(),
            content: rec.content.clone(),
            created_at: rec.created_at,
            expires_at: rec.expires_at,
            language: rec.language.clone(),
            views: rec.views,
            max_views: rec.max_views,
            is_public: rec.is_public,
            original_duration: rec.original_duration,
        }
    }

    /// Add one row under `token` unless the token is already taken.
    fn try_insert(
        &mut self,
        token: String,
        title: &String,
        content: &String,
        language: &String,
        created_at: i64,
        expires_at: i64,
        original_duration: i64,
        max_views: Option<i64>,
        is_public: bool,
    ) -> (r: bool)
        requires
            old(self).wf(),
            old(self).spec_next_id() < i64::MAX,
            total_chars(old(self)@) + content@.len() <= i64::MAX,
            original_duration >= 0,
        ensures
            final(self).wf(),
            r == !has_token(old(self)@, token@),
            r ==> final(self)@ == old(self)@.push(
                PasteRecord {
                    id: old(self).spec_next_id() as i64,
                    token: token,
                    title: *title,
                    content: *content,
                    language: *language,
                    created_at: created_at,
                    expires_at: expires_at,
                    original_duration: original_duration,
                    views: 0,
                    max_views: max_views,
                    is_public: is_public && max_views is None,
                },
            ) && final(self).spec_next_id() == old(self).spec_next_id() + 1,
            !r ==> final(self)@ == old(self)@ && final(self).spec_next_id() == old(
                self,
            ).spec_next_id(),
    {
        let ghost orig = self@;
        let ghost nid = self.spec_next_id();
        if self.contains_token(token.as_str()) {
            return false;
        }
        let id = self.next_id;
        self.next_id = self.next_id + 1;
        let rec = PasteRecord {
            id,
            token,
            title: title.clone(),
            content: content.clone(),
            language: language.clone(),
            created_at,
            expires_at,
            original_duration,
            views: 0,
            max_views,
            is_public: is_public && max_views.is_none(),
        };
        proof {
            assert(orig.push(rec).drop_last() =~= orig);
            assert(forall|j: int| 0 <= j < orig.len() ==> (#[trigger] orig[j]).token@ != rec.token@);
        }
        self.records.push(rec);
        true
    }

    /// Insert a row, trying each candidate token in order; the first free
    /// one names the new record, and when every candidate is taken the
    /// insert fails with `CollisionExhausted`.
    pub fn insert_paste_with_candidates(
        &mut self,
        candidates: &Vec<String>,
        title: String,
        content: String,
        language: String,
        created_at: i64,
        expires_at: i64,
        original_duration: i64,
        max_views: Option<i64>,
        is_public: bool,
    ) -> (r: Result<String, StoreError>)
        requires
            old(self).wf(),
            total_chars(old(self)@) + content@.len() <= i64::MAX,
            original_duration >= 0,
            candidates@.len() == MAX_TOKEN_ATTEMPTS as int,
        ensures
            final(self).wf(),
            ({
                let s = old(self)@;
                let cv = cand_views(candidates@);
                let k = first_free_idx(s, cv);
                if old(self).spec_next_id() == i64::MAX {
                    &&& r == Err::<String, StoreError>(StoreError::IdSpaceExhausted)
                    &&& final(self)@ == s
                    &&& final(self).spec_next_id() == old(self).spec_next_id()
                } else if k >= 0 {
                    &&& r == Ok::<String, StoreError>(candidates@[k])
                    &&& final(self)@ == s.push(
                        PasteRecord {
                            id: old(self).spec_next_id() as i64,
                            token: candidates@[k],
                            title: title,
                            content: content,
                            language: language,
                            created_at: created_at,
                            expires_at: expires_at,
                            original_duration: original_duration,
                            views: 0,
                            max_views: max_views,
                            is_public: is_public && max_views is None,
                        },
                    )
                    &&& final(self).spec_next_id() == old(self).spec_next_id() + 1
                } else {
                    &&& r == Err::<String, StoreError>(StoreError::CollisionExhausted)
                    &&& final(self)@ == s
                    &&& final(self).spec_next_id() == old(self).spec_next_id()
                }
            }),
    {
        let ghost orig = self@;
        let ghost cv = cand_views(candidates@);
        if self.next_id == i64::MAX {
            return Err(StoreError::IdSpaceExhausted);
        }
        let n = candidates.len();
        let mut i: usize = 0;
        while i < n
            invariant
                self.wf(),
                orig == old(self)@,
                self@ == orig,
                self.spec_next_id() == old(self).spec_next_id(),
                self.spec_next_id() < i64::MAX,
                total_chars(orig) + content@.len() <= i64::MAX,
                original_duration >= 0,
                n == candidates@.len(),
                i <= n,
                cv == cand_views(candidates@),
                forall|j: int| 0 <= j < i ==> has_token(orig, #[trigger] cv[j]),
            decreases n - i,
        {
            let tok = candidates[i].clone();
            let ok = self.try_insert(
                tok,
                &title,
                &content,
                &language,
                created_at,
                expires_at,
                original_duration,
                max_views,
                is_public,
            );
            proof {
                assert(cv[i as int] == candidates@[i as int]@);
            }
            if ok {
                proof {
                    assert(!has_token(orig, cv[i as int]));
                    lemma_first_free_scan(orig, cv, i as int);
                    assert(first_free_idx(orig, cv) == i as int);
                    assert(self@ == orig.push(
                        PasteRecord {
                            id: old(self).spec_next_id() as i64,
                            token: candidates@[i as int],
                            title: title,
                            content: content,
                            language: language,
                            created_at: created_at,
                            expires_at: expires_at,
                            original_duration: original_duration,
                            views: 0,
                            max_views: max_views,
                            is_public: is_public && max_views is None,
                        },
                    ));
                    assert(self.spec_next_id() == old(self).spec_next_id() + 1);
                }
                let out = candidates[i].clone();
                proof {
                    assert(out == candidates@[i as int]);
                }
                return Ok(out);
            }
            i = i + 1;
        }
        proof {
            lemma_first_free_scan(orig, cv, n as int);
        }
        Err(StoreError::CollisionExhausted)
    }

    /// Insert a row under a freshly generated random token, retrying on a
    /// collision up to `MAX_TOKEN_ATTEMPTS` times in all.
    pub fn insert_paste(
        &mut self,
        title: String,
        content: String,
        expires_at: i64,
        original_duration: i64,
        token_length: usize,
        language: String,
        max_views: Option<i64>,
        is_public: bool,
        created_at: i64,
    ) -> (r: Result<String, StoreError>)
        requires
            old(self).wf(),
            total_chars(old(self)@) + content@.len() <= i64::MAX,
            original_duration >= 0,
        ensures
            final(self).wf(),
            r matches Ok(t) ==> {
                &&& t@.len() == token_length
                &&& crate::token::token_chars_ok(t@)
                &&& !has_token(old(self)@, t@)
                &&& final(self)@ == old(self)@.push(
                    PasteRecord {
                        id: old(self).spec_next_id() as i64,
                        token: t,
                        title: title,
                        content: content,
                        language: language,
                        created_at: created_at,
                        expires_at: expires_at,
                        original_duration: original_duration,
                        views: 0,
                        max_views: max_views,
                        is_public: is_public && max_views is None,
                    },
                )
                &&& final(self).spec_next_id() == old(self).spec_next_id() + 1
            },
            r matches Err(e) ==> {
                &&& final(self)@ == old(self)@
                &&& final(self).spec_next_id() == old(self).spec_next_id()
                &&& (e == StoreError::IdSpaceExhausted <==> old(self).spec_next_id() == i64::MAX)
            },
            // a failure with free id space is only possible when a stored
            // token already has the requested length: on a table without
            // one — the empty table above all — the insert must succeed
            r is Err && old(self).spec_next_id() < i64::MAX ==> exists|i: int|
                0 <= i < old(self)@.len() && (#[trigger] old(self)@[i]).token@.len()
                    == token_length,
    {
        let ghost orig = self@;
        let mut candidates: Vec<String> = Vec::new();
        let mut i: usize = 0;
        while i < MAX_TOKEN_ATTEMPTS
            invariant
                i <= MAX_TOKEN_ATTEMPTS,
                candidates@.len() == i,
                forall|j: int|
                    0 <= j < i ==> (#[trigger] candidates@[j])@.len() == token_length
                        && crate::token::token_chars_ok(candidates@[j]@),
            decreases MAX_TOKEN_ATTEMPTS - i,
        {
            let t = crate::token::generate_token(token_length);
            candidates.push(t);
            i = i + 1;
        }
        proof {
            let cv = cand_views(candidates@);
            lemma_first_free_props(orig, cv);
            assert(forall|j: int| 0 <= j < cv.len() ==> #[trigger] cv[j] == candidates@[j]@);
        }
        let r = self.insert_paste_with_candidates(
            &candidates,
            title,
            content,
            language,
            created_at,
            expires_at,
            original_duration,
            max_views,
            is_public,
        );
        proof {
            // a failure with free id space means even the first candidate
            // collided, and every candidate has the requested length
            if r is Err && old(self).spec_next_id() < i64::MAX {
                let cv = cand_views(candidates@);
                assert(first_free_idx(orig, cv) < 0);
                assert(has_token(orig, cv[0]));
                let w = choose|i: int|
                    0 <= i < orig.len() && (#[trigger] orig[i]).token@ == cv[0];
                assert(orig[w].token@.len() == token_length);
            }
        }
        r
    }

    /// Copy one stored record into its public listing shape.
    fn public_of(rec: &PasteRecord) -> (r: PublicPaste)
        ensures
            r == spec_public_of(*rec),
    {
        PublicPaste {
            token: rec.token.clone(),
            title: rec.title.clone(),
            content: rec.content.clone(),
            created_at: rec.created_at,
            expires_at: rec.expires_at,
            language: rec.language.clone(),
            original_duration: rec.original_duration,
        }
    }

    /// How many records are discoverable at `now`.
    pub fn count_public_live(&self, now: i64) -> (r: usize)
        ensures
            r == public_entries(self@, now).len(),
    {
        let entries = self.collect_public(now);
        entries.len()
    }

    /// Gather the discoverable records in table order.
    fn collect_public(&self, now: i64) -> (r: Vec<PublicPaste>)
        ensures
            r@ == public_entries(self@, now),
    {
        let ghost orig = self@;
        let n = self.records.len();
        let mut out: Vec<PublicPaste> = Vec::new();
        let mut i: usize = 0;
        proof {
            reveal(Seq::filter);
            assert(orig.take(0) =~= Seq::<PasteRecord>::empty());
            assert(public_entries(orig.take(0), now) =~= Seq::<PublicPaste>::empty());
        }
        while i < n
            invariant
                n == orig.len(),
                self@ == orig,
                i <= n,
                out@ == public_entries(orig.take(i as int), now),
            decreases n - i,
        {
            proof {
                lemma_filter_take_step(orig, discoverable_pred(now), i as int);
                assert(discoverable_pred(now)(orig[i as int]) == (orig[i as int].is_public
                    && orig[i as int].max_views is None && orig[i as int].expires_at > now));
            }
            let rec = &self.records[i];
            if rec.is_public && rec.max_views.is_none() && rec.expires_at > now {
                let p = Self::public_of(rec);
                out.push(p);
                proof {
                    assert(public_entries(orig.take(i as int + 1), now) =~= public_entries(
                        orig.take(i as int),
                        now,
                    ).push(spec_public_of(orig[i as int])));
                }
            } else {
                proof {
                    assert(public_entries(orig.take(i as int + 1), now) =~= public_entries(
                        orig.take(i as int),
                        now,
                    ));
                }
            }
            i = i + 1;
        }
        proof {
            assert(orig.take(n as int) =~= orig);
        }
        out
    }

    /// The position of a record with the greatest creation time.
    fn max_created_idx(v: &Vec<PublicPaste>) -> (r: usize)
        requires
            v@.len() > 0,
        ensures
            r < v@.len(),
            forall|j: int| 0 <= j < v@.len() ==> v@[r as int].created_at >= (#[trigger] v@[
                j]).created_at,
    {
        let mut best: usize = 0;
        let mut i: usize = 1;
        while i < v.len()
            invariant
                1 <= i <= v@.len(),
                best < i,
                forall|j: int| 0 <= j < i ==> v@[best as int].created_at >= (#[trigger] v@[
                    j]).created_at,
            decreases v@.len() - i,
        {
            if v[i].created_at > v[best].created_at {
                best = i;
            }
            i = i + 1;
        }
        best
    }

    /// Order a listing newest first.
    fn sort_listing(input: Vec<PublicPaste>) -> (r: Vec<PublicPaste>)
        ensures
            r@.to_multiset() == input@.to_multiset(),
            listing_sorted(r@),
    {
        broadcast use {vstd::seq_lib::to_multiset_build, vstd::seq_lib::to_multiset_remove,
            vstd::seq_lib::to_multiset_len, vstd::seq_lib::to_multiset_contains,
            vstd::multiset::group_multiset_axioms};

        let mut rest = input;
        let ghost orig = rest@;
        let mut out: Vec<PublicPaste> = Vec::new();
        proof {
            assert(forall|a: PublicPaste| out@.to_multiset().count(a) == 0) by {
                assert(forall|a: PublicPaste| !out@.contains(a));
            }
            assert(out@.to_multiset() =~= Multiset::<PublicPaste>::empty());
            assert(out@.to_multiset().add(rest@.to_multiset()) =~= orig.to_multiset());
        }
        while rest.len() > 0
            invariant
                out@.to_multiset().add(rest@.to_multiset()) == orig.to_multiset(),
                listing_sorted(out@),
                forall|a: int, b: int|
                    0 <= a < out@.len() && 0 <= b < rest@.len() ==> (#[trigger] out@[
                    a]).created_at >= (#[trigger] rest@[b]).created_at,
            decreases rest@.len(),
        {
            let ghost rest0 = rest@;
            let ghost out0 = out@;
            let m = Self::max_created_idx(&rest);
            let x = rest.remove(m);
            out.push(x);
            proof {
                broadcast use {vstd::seq_lib::to_multiset_build, vstd::seq_lib::to_multiset_remove,
                    vstd::seq_lib::to_multiset_len, vstd::seq_lib::to_multiset_contains,
                    vstd::multiset::group_multiset_axioms};
                assert(rest@ == rest0.remove(m as int));
                assert(out@ == out0.push(x));
                assert(rest0.contains(x)) by {
                    assert(rest0[m as int] == x);
                }
                assert(rest0.to_multiset().count(x) > 0);
                assert(rest0.remove(m as int).to_multiset() =~= rest0.to_multiset().remove(x));
                assert(out0.push(x).to_multiset() =~= out0.to_multiset().insert(x));
                assert(out@.to_multiset().add(rest@.to_multiset()) =~= orig.to_multiset());
                assert(forall|b: int| 0 <= b < rest@.len() ==> x.created_at >= (#[trigger] rest@[
                    b]).created_at) by {
                    assert(forall|b: int| 0 <= b < rest@.len() ==> #[trigger] rest@[b] == (if b
                        < m { rest0[b] } else { rest0[b + 1] }));
                }
            }
        }
        proof {
            broadcast use {vstd::seq_lib::to_multiset_contains, vstd::multiset::group_multiset_axioms};
            assert(forall|a: PublicPaste| rest@.to_multiset().count(a) == 0) by {
                assert(forall|a: PublicPaste| !rest@.contains(a));
            }
            assert(rest@.to_multiset() =~= Multiset::<PublicPaste>::empty());
            assert(out@.to_multiset() =~= orig.to_multiset());
        }
        out
    }

    /// A page of the public discovery listing, newest created first: at
    /// most `limit` entries starting `offset` entries into the ordered
    /// listing of every discoverable record.
    pub fn list_public(&self, limit: usize, offset: usize, now: i64) -> (r: Vec<PublicPaste>)
        ensures
            exists|full: Seq<PublicPaste>|
                {
                    &&& #[trigger] full.to_multiset() == public_entries(self@, now).to_multiset()
                    &&& listing_sorted(full)
                    &&& r@ == full.subrange(
                        if offset as int <= full.len() { offset as int } else { full.len() as int },
                        if offset as int + limit as int <= full.len() {
                            offset as int + limit as int
                        } else {
                            full.len() as int
                        },
                    )
                },
    {
        let entries = self.collect_public(now);
        let sorted = Self::sort_listing(entries);
        let n = sorted.len();
        let start: usize = if offset <= n {
            offset
        } else {
            n
        };
        let avail: usize = n - start;
        let take: usize = if limit <= avail {
            limit
        } else {
            avail
        };
        let mut out: Vec<PublicPaste> = Vec::new();
        let mut i: usize = 0;
        while i < take
            invariant
                take <= avail,
                avail == n - start,
                start <= n,
                n == sorted@.len(),
                i <= take,
                out@ == sorted@.subrange(start as int, start as int + i as int),
            decreases take - i,
        {
            let ghost out0 = out@;
            let p = Self::clone_public(&sorted[start + i]);
            out.push(p);
            proof {
                assert(out0.push(sorted@[start as int + i as int]) =~= sorted@.subrange(
                    start as int,
                    start as int + i as int + 1,
                ));
            }
            i = i + 1;
        }
        proof {
            let full = sorted@;
            assert(full.to_multiset() == public_entries(self@, now).to_multiset());
            assert(out@ == full.subrange(
                if offset as int <= full.len() { offset as int } else { full.len() as int },
                if offset as int + limit as int <= full.len() {
                    offset as int + limit as int
                } else {
                    full.len() as int
                },
            ));
        }
        out
    }

    /// Copy one listing entry.
    fn clone_public(p: &PublicPaste) -> (r: PublicPaste)
        ensures
            r == *p,
    {
        PublicPaste {
            token: p.token.clone(),
            title: p.title.clone(),
            content: p.content.clone(),
            created_at: p.created_at,
            expires_at: p.expires_at,
            language: p.language.clone(),
            original_duration: p.original_duration,
        }
    }

    /// Delete every record whose expiry is at or before `now`.
    pub fn cleanup_expired(&mut self, now: i64)
        requires
            old(self).wf(),
        ensures
            final(self).wf(),
            final(self)@ == spec_sweep(old(self)@, now),
            final(self).spec_next_id() == old(self).spec_next_id(),
    {
        let ghost orig = self@;
        let n = self.records.len();
        let mut kept: Vec<PasteRecord> = Vec::new();
        let mut i: usize = 0;
        proof {
            reveal(Seq::filter);
            assert(orig.take(0) =~= Seq::<PasteRecord>::empty());
            assert(orig.take(0).filter(live_pred(now)) =~= Seq::<PasteRecord>::empty());
        }
        while i < n
            invariant
                n == orig.len(),
                self@ == orig,
                i <= n,
                kept@ == orig.take(i as int).filter(live_pred(now)),
            decreases n - i,
        {
            proof {
                lemma_filter_take_step(orig, live_pred(now), i as int);
                assert(live_pred(now)(orig[i as int]) == (orig[i as int].expires_at > now));
            }
            if self.records[i].expires_at > now {
                let r = self.records[i].clone();
                proof {
                    assert(r == orig[i as int]);
                    assert(live_pred(now)(orig[i as int]));
                }
                kept.push(r);
                proof {
                    assert(kept@ == orig.take(i as int).filter(live_pred(now)).push(orig[i as int]));
                    assert(kept@ == orig.take(i as int + 1).filter(live_pred(now)));
                }
            } else {
                proof {
                    assert(!live_pred(now)(orig[i as int]));
                    assert(kept@ == orig.take(i as int + 1).filter(live_pred(now)));
                }
            }
            i = i + 1;
        }
        proof {
            assert(orig.take(n as int) =~= orig);
            lemma_inv_filter(orig, self.spec_next_id(), live_pred(now));
        }
        self.records = kept;
    }
}

} // verus!
