use vstd::prelude::*;
use crate::store::{burns, evict_lt, find_token_idx, has_token, lemma_find_token_scan,
    lemma_inv_remove, lemma_min_evict_idx_in_range, lemma_sweep_membership, min_evict_idx, record_ok, spec_enforce_bytes, spec_enforce_count,
    spec_incr_views, spec_read_update, spec_sweep, store_inv, total_chars, PasteRecord};

verus! {

// The laws of the store, stated and proved once over the specification
// functions that the operations' contracts use.

/// Tokens are unique: in a well-formed table no two records answer to the
/// same token, so every insert that succeeds yields a distinct token.
pub proof fn lemma_tokens_unique(s: Seq<PasteRecord>, next_id: int)
    requires
        store_inv(s, next_id),
    ensures
        forall|i: int, j: int|
            0 <= i < s.len() && 0 <= j < s.len() && i != j ==> (#[trigger] s[i]).token@ != (
            #[trigger] s[j]).token@,
{
}

/// Discoverability and burn limits exclude each other: no record of a
/// well-formed table is both public and burn-limited.
pub proof fn lemma_public_never_burn_limited(s: Seq<PasteRecord>, next_id: int)
    requires
        store_inv(s, next_id),
    ensures
        forall|i: int|
            0 <= i < s.len() ==> !((#[trigger] s[i]).is_public && s[i].max_views is Some),
{
    assert(forall|i: int| 0 <= i < s.len() ==> record_ok(#[trigger] s[i]));
}

/// Expiry makes a record unreachable: after a sweep at `now`, a token
/// answers if and only if its record's expiry lies beyond `now`.
pub proof fn lemma_expired_unreachable(s: Seq<PasteRecord>, next_id: int, now: i64, token: Seq<
    char,
>)
    requires
        store_inv(s, next_id),
    ensures
        has_token(spec_sweep(s, now), token) <==> exists|i: int|
            0 <= i < s.len() && (#[trigger] s[i]).token@ == token && s[i].expires_at > now,
{
    lemma_sweep_membership(s, now);
    let swept = spec_sweep(s, now);
    if has_token(swept, token) {
        let k = choose|k: int| 0 <= k < swept.len() && (#[trigger] swept[k]).token@ == token;
        assert(s.contains(swept[k]));
        let i = choose|i: int| 0 <= i < s.len() && s[i] == swept[k];
        assert(s[i].token@ == token && s[i].expires_at > now);
    }
    if exists|i: int|
        0 <= i < s.len() && (#[trigger] s[i]).token@ == token && s[i].expires_at > now {
        let i = choose|i: int|
            0 <= i < s.len() && (#[trigger] s[i]).token@ == token && s[i].expires_at > now;
        assert(swept.contains(s[i]));
        let k = choose|k: int| 0 <= k < swept.len() && swept[k] == s[i];
        assert(swept[k].token@ == token);
    }
}

/// Burn-on-read: a burn-limited record always has a read left; the read
/// that reaches the bound deletes the record, and any earlier read only
/// moves the counter up, leaving the token reachable.
pub proof fn lemma_burn_on_read(s: Seq<PasteRecord>, next_id: int, k: int, m: i64)
    requires
        store_inv(s, next_id),
        0 <= k < s.len(),
        s[k].max_views == Some(m),
        m > 0,
    ensures
        s[k].views < m,
        spec_incr_views(s[k].views) >= m ==> !has_token(spec_read_update(s, k), s[k].token@),
        spec_incr_views(s[k].views) < m ==> {
            let t = spec_read_update(s, k);
            &&& t.len() == s.len()
            &&& t[k].token@ == s[k].token@
            &&& t[k].views == s[k].views + 1
            &&& has_token(t, s[k].token@)
        },
{
    assert(record_ok(s[k]));
    if spec_incr_views(s[k].views) >= m {
        assert(burns(s[k]));
        let t = s.remove(k);
        assert(forall|j: int| 0 <= j < t.len() ==> #[trigger] t[j] == (if j < k {
            s[j]
        } else {
            s[j + 1]
        }));
        assert(forall|j: int| 0 <= j < t.len() ==> (#[trigger] t[j]).token@ != s[k].token@);
    } else {
        assert(!burns(s[k]));
        let t = spec_read_update(s, k);
        assert(t[k].token@ == s[k].token@);
    }
}

/// Row capacity: with a non-negative allowance, eviction leaves exactly
/// the allowance when the table was over it, and touches nothing
/// otherwise.
pub proof fn lemma_enforce_count_len(s: Seq<PasteRecord>, allowed: int)
    requires
        allowed >= 0,
    ensures
        spec_enforce_count(s, allowed).len() == if s.len() <= allowed {
            s.len() as int
        } else {
            allowed
        },
    decreases s.len(),
{
    if !(s.len() == 0 || s.len() <= allowed) {
        lemma_min_evict_idx_in_range(s);
        lemma_enforce_count_len(s.remove(min_evict_idx(s)), allowed);
    }
}

/// Byte budget: with a non-negative allowance, eviction always brings the
/// total content length within it.
pub proof fn lemma_enforce_bytes_total(s: Seq<PasteRecord>, allowed: int)
    requires
        allowed >= 0,
    ensures
        total_chars(spec_enforce_bytes(s, allowed)) <= allowed,
    decreases s.len(),
{
    if s.len() == 0 {
        assert(total_chars(s) == 0);
    } else if total_chars(s) <= allowed {
    } else {
        lemma_min_evict_idx_in_range(s);
        lemma_enforce_bytes_total(s.remove(min_evict_idx(s)), allowed);
    }
}

/// Eviction order: row-capacity eviction keeps a subset of the table, and
/// every evicted record stands before every kept record in the eviction
/// order — soonest-expiring first, then lowest id.
pub proof fn lemma_enforce_count_order(s: Seq<PasteRecord>, next_id: int, allowed: int)
    requires
        store_inv(s, next_id),
    ensures
        forall|k: int|
            0 <= k < spec_enforce_count(s, allowed).len() ==> s.contains(
                #[trigger] spec_enforce_count(s, allowed)[k],
            ),
        forall|i: int|
            0 <= i < s.len() && !spec_enforce_count(s, allowed).contains(#[trigger] s[i])
                ==> forall|k: int|
                0 <= k < spec_enforce_count(s, allowed).len() ==> evict_lt(
                    s[i],
                    #[trigger] spec_enforce_count(s, allowed)[k],
                ),
    decreases s.len(),
{
    if s.len() == 0 || s.len() <= allowed {
        assert(forall|k: int|
            0 <= k < s.len() ==> s.contains(#[trigger] s[k]));
    } else {
        lemma_min_evict_idx_in_range(s);
        let m = min_evict_idx(s);
        let t = s.remove(m);
        lemma_inv_remove(s, next_id, m);
        lemma_enforce_count_order(t, next_id, allowed);
        let result = spec_enforce_count(s, allowed);
        assert(result == spec_enforce_count(t, allowed));
        assert(forall|j: int| 0 <= j < t.len() ==> #[trigger] t[j] == (if j < m {
            s[j]
        } else {
            s[j + 1]
        }));
        // everything that remains comes from the table before eviction
        assert(forall|k: int| 0 <= k < result.len() ==> s.contains(#[trigger] result[k])) by {
            assert(forall|k: int| 0 <= k < t.len() ==> s.contains(#[trigger] t[k]));
            assert(forall|x: PasteRecord| t.contains(x) ==> s.contains(x));
        }
        // the removed minimum stands before every other record of the table
        assert(forall|j: int| 0 <= j < s.len() && j != m ==> evict_lt(s[m], #[trigger] s[j])) by {
            assert(forall|j: int| 0 <= j < s.len() ==> !evict_lt(#[trigger] s[j], s[m]));
            assert(forall|j: int|
                0 <= j < s.len() && j != m ==> (#[trigger] s[j]).id != s[m].id);
        }
        assert(forall|i: int|
            0 <= i < s.len() && !result.contains(#[trigger] s[i]) ==> forall|k: int|
                0 <= k < result.len() ==> evict_lt(s[i], #[trigger] result[k])) by {
            assert forall|i: int|
                0 <= i < s.len() && !result.contains(#[trigger] s[i]) implies forall|k: int|
                0 <= k < result.len() ==> evict_lt(s[i], #[trigger] result[k]) by {
                if i == m {
                    assert(forall|k: int|
                        0 <= k < result.len() ==> t.contains(#[trigger] result[k]));
                    assert(forall|x: PasteRecord| t.contains(x) ==> s.contains(x) && x != s[m])
                        by {
                        assert(forall|j: int, l: int|
                            0 <= j < s.len() && 0 <= l < s.len() && j != l ==> (
                            #[trigger] s[j]).id < (#[trigger] s[l]).id || s[l].id < s[j].id);
                        assert(forall|j: int| 0 <= j < t.len() && m <= j ==> (#[trigger] t[
                            j]).id != s[m].id);
                        assert(forall|j: int| 0 <= j < t.len() && j < m ==> (#[trigger] t[
                            j]).id != s[m].id);
                    }
                    assert(forall|k: int|
                        0 <= k < result.len() ==> evict_lt(s[m], #[trigger] result[k]));
                } else {
                    assert(t.contains(s[i])) by {
                        if i < m {
                            assert(t[i] == s[i]);
                        } else {
                            assert(t[i - 1] == s[i]);
                        }
                    }
                    let j = choose|j: int| 0 <= j < t.len() && t[j] == s[i];
                    assert(!result.contains(t[j]));
                }
            }
        }
    }
}

/// Eviction order for the byte budget: the same claim as for row
/// capacity — what remains is a subset of the table, and every evicted
/// record stands before every kept record in the eviction order.
pub proof fn lemma_enforce_bytes_order(s: Seq<PasteRecord>, next_id: int, allowed: int)
    requires
        store_inv(s, next_id),
    ensures
        forall|k: int|
            0 <= k < spec_enforce_bytes(s, allowed).len() ==> s.contains(
                #[trigger] spec_enforce_bytes(s, allowed)[k],
            ),
        forall|i: int|
            0 <= i < s.len() && !spec_enforce_bytes(s, allowed).contains(#[trigger] s[i])
                ==> forall|k: int|
                0 <= k < spec_enforce_bytes(s, allowed).len() ==> evict_lt(
                    s[i],
                    #[trigger] spec_enforce_bytes(s, allowed)[k],
                ),
    decreases s.len(),
{
    if s.len() == 0 || total_chars(s) <= allowed {
        assert(forall|k: int|
            0 <= k < s.len() ==> s.contains(#[trigger] s[k]));
    } else {
        lemma_min_evict_idx_in_range(s);
        let m = min_evict_idx(s);
        let t = s.remove(m);
        lemma_inv_remove(s, next_id, m);
        lemma_enforce_bytes_order(t, next_id, allowed);
        let result = spec_enforce_bytes(s, allowed);
        assert(result == spec_enforce_bytes(t, allowed));
        assert(forall|j: int| 0 <= j < t.len() ==> #[trigger] t[j] == (if j < m {
            s[j]
        } else {
            s[j + 1]
        }));
        assert(forall|k: int| 0 <= k < result.len() ==> s.contains(#[trigger] result[k])) by {
            assert(forall|k: int| 0 <= k < t.len() ==> s.contains(#[trigger] t[k]));
            assert(forall|x: PasteRecord| t.contains(x) ==> s.contains(x));
        }
        assert(forall|j: int| 0 <= j < s.len() && j != m ==> evict_lt(s[m], #[trigger] s[j])) by {
            assert(forall|j: int| 0 <= j < s.len() ==> !evict_lt(#[trigger] s[j], s[m]));
            assert(forall|j: int|
                0 <= j < s.len() && j != m ==> (#[trigger] s[j]).id != s[m].id);
        }
        assert(forall|i: int|
            0 <= i < s.len() && !result.contains(#[trigger] s[i]) ==> forall|k: int|
                0 <= k < result.len() ==> evict_lt(s[i], #[trigger] result[k])) by {
            assert forall|i: int|
                0 <= i < s.len() && !result.contains(#[trigger] s[i]) implies forall|k: int|
                0 <= k < result.len() ==> evict_lt(s[i], #[trigger] result[k]) by {
                if i == m {
                    assert(forall|k: int|
                        0 <= k < result.len() ==> t.contains(#[trigger] result[k]));
                    assert(forall|x: PasteRecord| t.contains(x) ==> s.contains(x) && x != s[m])
                        by {
                        assert(forall|j: int, l: int|
                            0 <= j < s.len() && 0 <= l < s.len() && j != l ==> (
                            #[trigger] s[j]).id < (#[trigger] s[l]).id || s[l].id < s[j].id);
                        assert(forall|j: int| 0 <= j < t.len() && m <= j ==> (#[trigger] t[
                            j]).id != s[m].id);
                        assert(forall|j: int| 0 <= j < t.len() && j < m ==> (#[trigger] t[
                            j]).id != s[m].id);
                    }
                    assert(forall|k: int|
                        0 <= k < result.len() ==> evict_lt(s[m], #[trigger] result[k]));
                } else {
                    assert(t.contains(s[i])) by {
                        if i < m {
                            assert(t[i] == s[i]);
                        } else {
                            assert(t[i - 1] == s[i]);
                        }
                    }
                    let j = choose|j: int| 0 <= j < t.len() && t[j] == s[i];
                    assert(!result.contains(t[j]));
                }
            }
        }
    }
}

/// A fresh insert is reachable: a record appended under a token nobody
/// holds becomes the record that the token finds, so a read before its
/// expiry returns it.
pub proof fn lemma_insert_then_readable(s: Seq<PasteRecord>, rec: PasteRecord)
    requires
        !has_token(s, rec.token@),
    ensures
        find_token_idx(s.push(rec), rec.token@) == s.len(),
        s.push(rec)[find_token_idx(s.push(rec), rec.token@)] == rec,
{
    let s2 = s.push(rec);
    assert(forall|j: int| 0 <= j < s.len() ==> (#[trigger] s2[j]).token@ != rec.token@) by {
        assert(forall|j: int| 0 <= j < s.len() ==> s2[j] == #[trigger] s[j]);
    }
    lemma_find_token_scan(s2, rec.token@, s.len() as int);
}

} // verus!
